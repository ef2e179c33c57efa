//! Opaque, high-entropy session identifiers.
//!
//! A [`SessionId`] is sixteen bytes drawn from the operating system's
//! cryptographically secure random source. On the wire it travels as a
//! thirty-two character lowercase hexadecimal string, which is URL- and
//! cookie-safe; [`SessionId::parse`] rejects anything else before the store
//! is ever consulted.

use vstd::prelude::*;
use vstd::string::StrSliceExecFns;
use vstd::string::StringExecFns;
use crate::store::SessionError;

verus! {

/// The number of random bytes in a session identifier.
pub const SESSION_ID_BYTES: usize = 16;

/// The lowercase hexadecimal digit for a value below sixteen.
pub open spec fn hex_char(n: int) -> char {
    if n == 0 {
        '0'
    } else if n == 1 {
        '1'
    } else if n == 2 {
        '2'
    } else if n == 3 {
        '3'
    } else if n == 4 {
        '4'
    } else if n == 5 {
        '5'
    } else if n == 6 {
        '6'
    } else if n == 7 {
        '7'
    } else if n == 8 {
        '8'
    } else if n == 9 {
        '9'
    } else if n == 10 {
        'a'
    } else if n == 11 {
        'b'
    } else if n == 12 {
        'c'
    } else if n == 13 {
        'd'
    } else if n == 14 {
        'e'
    } else {
        'f'
    }
}

/// Whether `c` is a lowercase hexadecimal digit.
pub open spec fn is_hex_char(c: char) -> bool {
    ('0' <= c && c <= '9') || ('a' <= c && c <= 'f')
}

/// The value of the lowercase hexadecimal digit `c`.
pub open spec fn hex_value(c: char) -> int {
    if '0' <= c && c <= '9' {
        c as int - '0' as int
    } else {
        c as int - 'a' as int + 10
    }
}

/// The lowercase hexadecimal encoding of a byte sequence: two digits per
/// byte, high nibble first.
pub open spec fn hex_of(bs: Seq<u8>) -> Seq<char> {
    Seq::new(
        bs.len() * 2,
        |i: int|
            if i % 2 == 0 {
                hex_char(bs[i / 2] as int / 16)
            } else {
                hex_char(bs[i / 2] as int % 16)
            },
    )
}

/// Whether `s` is a well-formed encoded session identifier: exactly two
/// lowercase hexadecimal digits per identifier byte.
pub open spec fn is_valid_id_encoding(s: Seq<char>) -> bool {
    s.len() == SESSION_ID_BYTES * 2 && forall|i: int| 0 <= i < s.len() ==> is_hex_char(#[trigger] s[i])
}

/// The bytes denoted by a well-formed encoded identifier.
pub open spec fn bytes_of_hex(s: Seq<char>) -> Seq<u8> {
    Seq::new(s.len() / 2, |i: int| (hex_value(s[2 * i]) * 16 + hex_value(s[2 * i + 1])) as u8)
}

/// Decoding inverts encoding: the digits of a byte sequence denote that
/// byte sequence.
pub proof fn lemma_hex_of_inverts(bs: Seq<u8>)
    ensures
        bytes_of_hex(hex_of(bs)) == bs,
        forall|i: int| 0 <= i < hex_of(bs).len() ==> is_hex_char(#[trigger] hex_of(bs)[i]),
{
    let s = hex_of(bs);
    assert forall|i: int| 0 <= i < s.len() implies is_hex_char(#[trigger] s[i]) by {
        let b = bs[i / 2] as int;
        assert(0 <= b / 16 < 16);
        assert(0 <= b % 16 < 16);
    }
    assert forall|i: int| 0 <= i < bs.len() implies bytes_of_hex(s)[i] == bs[i] by {
        let b = bs[i] as int;
        assert(s[2 * i] == hex_char(b / 16));
        assert(s[2 * i + 1] == hex_char(b % 16));
        assert(hex_value(hex_char(b / 16)) == b / 16);
        assert(hex_value(hex_char(b % 16)) == b % 16);
        assert((b / 16) * 16 + b % 16 == b) by (nonlinear_arith);
    }
    assert(bytes_of_hex(s) =~= bs);
}

/// Encoding inverts decoding: any well-formed encoded identifier is the
/// encoding of the bytes it denotes.
pub proof fn lemma_bytes_of_hex_inverts(s: Seq<char>)
    requires
        s.len() % 2 == 0,
        forall|i: int| 0 <= i < s.len() ==> is_hex_char(#[trigger] s[i]),
    ensures
        hex_of(bytes_of_hex(s)) == s,
{
    let bs = bytes_of_hex(s);
    assert forall|i: int| 0 <= i < s.len() implies hex_of(bs)[i] == s[i] by {
        let j = i / 2;
        let hi = hex_value(s[2 * j]);
        let lo = hex_value(s[2 * j + 1]);
        assert(0 <= hi < 16);
        assert(0 <= lo < 16);
        assert(bs[j] as int == hi * 16 + lo);
        assert((hi * 16 + lo) / 16 == hi) by (nonlinear_arith)
            requires
                0 <= hi < 16 && 0 <= lo < 16,
        ;
        assert((hi * 16 + lo) % 16 == lo) by (nonlinear_arith)
            requires
                0 <= hi < 16 && 0 <= lo < 16,
        ;
        if i % 2 == 0 {
            assert(hex_char(hex_value(s[i])) == s[i]);
        } else {
            assert(2 * j + 1 == i);
            assert(hex_char(hex_value(s[i])) == s[i]);
        }
    }
    assert(hex_of(bs) =~= s);
}

/// An opaque session identifier: sixteen bytes of cryptographically secure
/// random data. Equality is exact byte comparison; an identifier is never
/// derived from user-controllable input.
pub struct SessionId {
    bytes: Vec<u8>,
}

impl View for SessionId {
    type V = Seq<u8>;

    closed spec fn view(&self) -> Seq<u8> {
        self.bytes@
    }
}

/// Relies on getrandom::fill: on success the buffer is filled with bytes
/// from the operating system's cryptographically secure random source.
/// Nothing is assumed about the bytes themselves.
#[verifier::external_body]
fn os_random_bytes(n: usize) -> (r: Option<Vec<u8>>)
    ensures
        r matches Option::Some(v) ==> v@.len() == n,
{
    let mut buf = vec![0u8; n];
    match getrandom::fill(&mut buf) {
        Ok(()) => Some(buf),
        Err(_) => None,
    }
}

impl SessionId {
    /// A well-formed identifier holds exactly [`SESSION_ID_BYTES`] bytes.
    pub open spec fn wf(&self) -> bool {
        self@.len() == SESSION_ID_BYTES
    }

    /// Produce a fresh identifier from the operating system's secure random
    /// source; `None` only if that source is unavailable.
    pub fn generate() -> (r: Option<SessionId>)
        ensures
            r matches Option::Some(id) ==> id.wf(),
    {
        match os_random_bytes(SESSION_ID_BYTES) {
            Option::Some(bytes) => Option::Some(SessionId { bytes }),
            Option::None => Option::None,
        }
    }

    /// Exact byte-wise equality of two identifiers.
    pub fn equals(&self, other: &SessionId) -> (r: bool)
        ensures
            r == (self@ == other@),
    {
        let r = self.bytes == other.bytes;
        proof {
            if self.bytes@ =~= other.bytes@ {
                assert(r);
            }
        }
        r
    }

    /// A copy of this identifier with the same bytes.
    pub fn duplicate(&self) -> (r: SessionId)
        ensures
            r@ == self@,
    {
        let bytes = self.bytes.clone();
        proof {
            assert(bytes@ =~= self.bytes@);
        }
        SessionId { bytes }
    }

    /// The wire form of this identifier: lowercase hexadecimal, two digits
    /// per byte.
    pub fn encode(&self) -> (r: String)
        ensures
            r@ == hex_of(self@),
            self.wf() ==> is_valid_id_encoding(r@),
    {
        let mut out = String::new();
        let mut i: usize = 0;
        while i < self.bytes.len()
            invariant
                i <= self.bytes@.len(),
                out@ =~= hex_of(self.bytes@.subrange(0, i as int)),
            decreases self.bytes@.len() - i,
        {
            let b = self.bytes[i];
            out.append(hex_digit_str(b / 16));
            out.append(hex_digit_str(b % 16));
            proof {
                let pre = self.bytes@.subrange(0, i as int);
                let post = self.bytes@.subrange(0, i + 1 as int);
                assert(post.drop_last() =~= pre);
                assert(post.last() == self.bytes@[i as int]);
                assert(out@ =~= hex_of(post));
            }
            i = i + 1;
        }
        proof {
            assert(self.bytes@.subrange(0, self.bytes@.len() as int) =~= self.bytes@);
            if self.wf() {
                lemma_hex_of_inverts(self@);
            }
        }
        out
    }

    /// Validate a raw cookie value and decode it into an identifier.
    ///
    /// Returns `Ok` exactly on well-formed encodings — thirty-two
    /// lowercase hexadecimal characters — and then the identifier they
    /// denote; anything else (wrong length, uppercase, non-hexadecimal,
    /// non-ASCII) is rejected before the store is ever consulted, with
    /// one uniform failure mode for tampered cookies.
    pub fn parse(raw: &str) -> (r: Result<SessionId, SessionError>)
        ensures
            r matches Result::Ok(id) ==> id.wf() && is_valid_id_encoding(raw@) && id@
                == bytes_of_hex(raw@),
            r matches Result::Err(e) ==> e == SessionError::InvalidIdFormat
                && !is_valid_id_encoding(raw@),
    {
        let n = raw.unicode_len();
        if n != SESSION_ID_BYTES * 2 {
            return Result::Err(SessionError::InvalidIdFormat);
        }
        let mut bytes: Vec<u8> = Vec::new();
        let mut i: usize = 0;
        while i < n
            invariant
                i % 2 == 0,
                i <= n,
                n == raw@.len(),
                n == SESSION_ID_BYTES * 2,
                forall|j: int| 0 <= j < i ==> is_hex_char(#[trigger] raw@[j]),
                bytes@ =~= bytes_of_hex(raw@.subrange(0, i as int)),
            decreases n - i,
        {
            let hi = raw.get_char(i);
            let lo = raw.get_char(i + 1);
            let hi_v = match hex_nibble(hi) {
                Option::Some(v) => v,
                Option::None => {
                    return Result::Err(SessionError::InvalidIdFormat);
                },
            };
            let lo_v = match hex_nibble(lo) {
                Option::Some(v) => v,
                Option::None => {
                    return Result::Err(SessionError::InvalidIdFormat);
                },
            };
            bytes.push(hi_v * 16 + lo_v);
            proof {
                let pre = raw@.subrange(0, i as int);
                let post = raw@.subrange(0, i + 2 as int);
                assert(bytes@.len() == post.len() / 2);
                assert forall|j: int| 0 <= j < bytes@.len() implies bytes@[j] == bytes_of_hex(
                    post,
                )[j] by {
                    if j < pre.len() / 2 {
                        assert(bytes_of_hex(pre)[j] == bytes_of_hex(post)[j]);
                    } else {
                        assert(post[2 * j] == raw@[i as int]);
                        assert(post[2 * j + 1] == raw@[i + 1]);
                    }
                }
                assert(bytes@ =~= bytes_of_hex(post));
            }
            i = i + 2;
        }
        proof {
            assert(raw@.subrange(0, n as int) =~= raw@);
            assert(is_valid_id_encoding(raw@));
        }
        Result::Ok(SessionId { bytes })
    }
}

/// The one-character string holding the lowercase hexadecimal digit for
/// `n`.
pub(crate) fn hex_digit_str(n: u8) -> (r: &'static str)
    requires
        n < 16,
    ensures
        r@ =~= seq![hex_char(n as int)],
{
    proof {
        reveal_strlit("0");
        reveal_strlit("1");
        reveal_strlit("2");
        reveal_strlit("3");
        reveal_strlit("4");
        reveal_strlit("5");
        reveal_strlit("6");
        reveal_strlit("7");
        reveal_strlit("8");
        reveal_strlit("9");
        reveal_strlit("a");
        reveal_strlit("b");
        reveal_strlit("c");
        reveal_strlit("d");
        reveal_strlit("e");
        reveal_strlit("f");
    }
    if n == 0 {
        "0"
    } else if n == 1 {
        "1"
    } else if n == 2 {
        "2"
    } else if n == 3 {
        "3"
    } else if n == 4 {
        "4"
    } else if n == 5 {
        "5"
    } else if n == 6 {
        "6"
    } else if n == 7 {
        "7"
    } else if n == 8 {
        "8"
    } else if n == 9 {
        "9"
    } else if n == 10 {
        "a"
    } else if n == 11 {
        "b"
    } else if n == 12 {
        "c"
    } else if n == 13 {
        "d"
    } else if n == 14 {
        "e"
    } else {
        "f"
    }
}

/// The value of a character read as a lowercase hexadecimal digit, or
/// `None` if it is no such digit.
fn hex_nibble(c: char) -> (r: Option<u8>)
    ensures
        r matches Option::Some(v) ==> is_hex_char(c) && v < 16 && v == hex_value(c),
        r is None ==> !is_hex_char(c),
{
    let u = c as u32;
    if u >= 48 && u <= 57 {
        Option::Some((u - 48) as u8)
    } else if u >= 97 && u <= 102 {
        Option::Some((u - 97 + 10) as u8)
    } else {
        Option::None
    }
}

} // verus!
