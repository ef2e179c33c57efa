//! The per-request session lifecycle: load the record named by the
//! request's cookie or create a fresh one, track mutation, rotate or
//! invalidate on demand, then persist what must be persisted and decide
//! the `Set-Cookie` header.
//!
//! A tampered or malformed cookie never surfaces as an error: the request
//! proceeds with a fresh anonymous session. A failing backend does surface
//! — a request must not report success while its session changes were
//! silently lost.

use vstd::prelude::*;
use crate::config::SessionCookieConfig;
use crate::config::SessionCookieKind;
use crate::cookie::render_expired_cookie;
use crate::cookie::render_set_cookie;
use crate::cookie::render_spec;
use crate::id::SESSION_ID_BYTES;
use crate::id::SessionId;
use crate::id::bytes_of_hex;
use crate::id::hex_of;
use crate::id::is_valid_id_encoding;
use crate::state::SessionState;
use crate::store::SessionError;
use crate::store::SessionRecord;
use crate::store::SessionRecordView;
use crate::store::SessionStore;
use crate::store::live;

verus! {

/// The identifier bytes a request's cookie value denotes, if it is a
/// well-formed encoding at all.
pub open spec fn presented_id(cookie_value: Option<&str>) -> Option<Seq<u8>> {
    match cookie_value {
        Option::Some(raw) => if is_valid_id_encoding(raw@) {
            Option::Some(bytes_of_hex(raw@))
        } else {
            Option::None
        },
        Option::None => Option::None,
    }
}

/// Whether the presented cookie value names a record that is stored and
/// still alive at instant `now`.
pub open spec fn presents_live_session(
    cookie_value: Option<&str>,
    contents: Map<Seq<u8>, SessionRecordView>,
    now: u64,
) -> bool {
    match presented_id(cookie_value) {
        Option::Some(id) => contents.contains_key(id) && live(contents[id], now),
        Option::None => false,
    }
}

/// The record view as it is persisted when a request's changes are saved
/// at instant `now`: touched now, expiry slid to `now + ttl`.
pub open spec fn saved_view(rec: SessionRecordView, now: u64, ttl: u64) -> SessionRecordView {
    SessionRecordView {
        id: rec.id,
        state: rec.state,
        created_at: rec.created_at,
        last_touched_at: now,
        expires_at: (now + ttl) as u64,
    }
}

/// The lifetime attribute a policy asks for: an explicit `Max-Age` of the
/// store's expiry policy for a persistent cookie, none for a
/// browser-session cookie.
pub open spec fn kind_max_age(kind: SessionCookieKind, ttl: u64) -> Option<u64> {
    match kind {
        SessionCookieKind::Persistent => Option::Some(ttl),
        SessionCookieKind::Session => Option::None,
    }
}

/// One request's session handle: a working copy of the record plus the
/// per-request outcome flags. Obtained from [`begin`], surrendered to
/// [`finish`].
pub struct Session {
    record: SessionRecord,
    state_changed: bool,
    rotated: bool,
    invalidated: bool,
    fresh: bool,
}

impl Session {
    /// The working copy of the record.
    pub closed spec fn rec(&self) -> SessionRecordView {
        self.record@
    }

    /// Whether the handler wrote to the state this request.
    pub closed spec fn state_changed(&self) -> bool {
        self.state_changed
    }

    /// Whether the identifier was rotated this request.
    pub closed spec fn rotated(&self) -> bool {
        self.rotated
    }

    /// Whether the session was invalidated this request.
    pub closed spec fn invalidated(&self) -> bool {
        self.invalidated
    }

    /// Whether the session was created this request.
    pub closed spec fn fresh(&self) -> bool {
        self.fresh
    }

    /// Well-formed: the working copy is.
    pub closed spec fn wf(&self) -> bool {
        self.record.wf()
    }

    /// The identifier the session currently travels under.
    pub fn id(&self) -> (r: &SessionId)
        ensures
            r@ == self.rec().id,
    {
        &self.record.id
    }

    /// Read the payload stored under `key` in the working copy.
    pub fn get(&self, key: &str) -> (r: Option<&Vec<u8>>)
        requires
            self.wf(),
        ensures
            r matches Option::Some(v) ==> self.rec().state.contains_key(key@) && v@
                == self.rec().state[key@],
            r is None ==> !self.rec().state.contains_key(key@),
    {
        self.record.state.get(key)
    }

    /// Write `value` under `key`; the session is marked changed and will
    /// be persisted at [`finish`].
    pub fn insert(&mut self, key: String, value: Vec<u8>)
        requires
            old(self).wf(),
        ensures
            final(self).wf(),
            final(self).rec() == saved_like(old(self).rec(), old(self).rec().state.insert(key@, value@)),
            final(self).state_changed(),
            final(self).rotated() == old(self).rotated(),
            final(self).invalidated() == old(self).invalidated(),
            final(self).fresh() == old(self).fresh(),
    {
        self.record.state.insert(key, value);
        self.state_changed = true;
    }

    /// Remove the payload under `key`, if any; the session is marked
    /// changed either way.
    pub fn remove(&mut self, key: &str)
        requires
            old(self).wf(),
        ensures
            final(self).wf(),
            final(self).rec() == saved_like(old(self).rec(), old(self).rec().state.remove(key@)),
            final(self).state_changed(),
            final(self).rotated() == old(self).rotated(),
            final(self).invalidated() == old(self).invalidated(),
            final(self).fresh() == old(self).fresh(),
    {
        self.record.state.remove(key);
        self.state_changed = true;
    }

    /// Replace the session's identifier by a fresh one, atomically
    /// re-keying the stored record and keeping all of its state: the
    /// fixation defense on privilege change. After success the old
    /// identifier resolves to nothing and the response will carry the new
    /// one.
    pub fn rotate<S: SessionStore>(&mut self, store: &mut S) -> (r: Result<(), SessionError>)
        requires
            old(self).wf(),
            old(store).wf(),
            !old(self).invalidated(),
        ensures
            final(self).wf(),
            final(store).wf(),
            final(store).ttl() == old(store).ttl(),
            final(store).infallible() == old(store).infallible(),
            match r {
                Result::Ok(()) => {
                    &&& old(store).contents().contains_key(old(self).rec().id)
                    &&& final(store).contents() == old(store).contents().remove(
                        old(self).rec().id,
                    ).insert(final(self).rec().id, final(self).rec())
                    &&& final(self).rec() == saved_like_id(old(self).rec(), final(self).rec().id)
                    &&& final(self).rec().id != old(self).rec().id
                    &&& final(self).rotated()
                    &&& !final(self).invalidated()
                    &&& final(self).state_changed() == old(self).state_changed()
                    &&& final(self).fresh() == old(self).fresh()
                },
                Result::Err(e) => {
                    &&& *final(self) == *old(self)
                    &&& final(store).contents() == old(store).contents()
                    &&& (e == SessionError::StoreUnavailable || e == SessionError::RotationConflict)
                },
            },
    {
        let new_id = match generate_distinct(&self.record.id) {
            Option::Some(id) => id,
            Option::None => {
                return Result::Err(SessionError::StoreUnavailable);
            },
        };
        let mut moved = self.record.duplicate();
        moved.id = new_id.duplicate();
        match store.rotate(&self.record.id, &new_id, &moved) {
            Result::Ok(()) => {
                self.record.id = new_id;
                self.rotated = true;
                Result::Ok(())
            },
            Result::Err(e) => Result::Err(e),
        }
    }

    /// Destroy the session: remove the record from the store and mark the
    /// handle so that [`finish`] clears the client's cookie.
    pub fn invalidate<S: SessionStore>(&mut self, store: &mut S) -> (r: Result<(), SessionError>)
        requires
            old(self).wf(),
            old(store).wf(),
        ensures
            final(self).wf(),
            final(store).wf(),
            final(store).ttl() == old(store).ttl(),
            final(store).infallible() == old(store).infallible(),
            old(store).infallible() ==> r is Ok,
            match r {
                Result::Ok(()) => {
                    &&& final(store).contents() == old(store).contents().remove(old(self).rec().id)
                    &&& final(self).invalidated()
                    &&& final(self).rec() == old(self).rec()
                },
                Result::Err(e) => {
                    &&& e == SessionError::StoreUnavailable
                    &&& *final(self) == *old(self)
                    &&& final(store).contents() == old(store).contents()
                },
            },
    {
        match store.delete(&self.record.id) {
            Result::Ok(()) => {
                self.invalidated = true;
                Result::Ok(())
            },
            Result::Err(e) => Result::Err(e),
        }
    }
}

/// A record view with the given state mapping and everything else as in
/// `rec`.
pub open spec fn saved_like(rec: SessionRecordView, state: Map<Seq<char>, Seq<u8>>) -> SessionRecordView {
    SessionRecordView {
        id: rec.id,
        state: state,
        created_at: rec.created_at,
        last_touched_at: rec.last_touched_at,
        expires_at: rec.expires_at,
    }
}

/// A record view with the given identifier and everything else as in
/// `rec`.
pub open spec fn saved_like_id(rec: SessionRecordView, id: Seq<u8>) -> SessionRecordView {
    SessionRecordView {
        id: id,
        state: rec.state,
        created_at: rec.created_at,
        last_touched_at: rec.last_touched_at,
        expires_at: rec.expires_at,
    }
}

/// A fresh identifier guaranteed to differ from `old_id`, so a rotation
/// always changes the identifier. A collision of two sixteen-byte random
/// values is vanishingly unlikely; it is retried rather than let a
/// rotation silently keep the old identifier alive. `None` only if the
/// random source is unavailable or kept colliding.
fn generate_distinct(old_id: &SessionId) -> (r: Option<SessionId>)
    ensures
        r matches Option::Some(id) ==> id.wf() && id@ != old_id@,
{
    let mut attempts: usize = 16;
    while attempts > 0
        decreases attempts,
    {
        match SessionId::generate() {
            Option::Some(id) => {
                if !id.equals(old_id) {
                    return Option::Some(id);
                }
                attempts = attempts - 1;
            },
            Option::None => {
                return Option::None;
            },
        }
    }
    Option::None
}

/// A well-formed session's identifier has the full identifier length, so
/// its wire form is a well-formed encoding.
pub proof fn lemma_session_id_len(s: &Session)
    requires
        s.wf(),
    ensures
        s.rec().id.len() == SESSION_ID_BYTES,
{
}

/// Create a fresh anonymous session: one new record in the store, marked
/// changed so the client receives a cookie even with empty state.
fn begin_fresh<S: SessionStore>(store: &mut S, now: u64) -> (r: Result<Session, SessionError>)
    requires
        old(store).wf(),
        now + old(store).ttl() <= u64::MAX,
    ensures
        final(store).wf(),
        final(store).ttl() == old(store).ttl(),
        final(store).infallible() == old(store).infallible(),
        match r {
            Result::Ok(s) => {
                &&& s.wf()
                &&& s.fresh()
                &&& s.state_changed()
                &&& !s.rotated()
                &&& !s.invalidated()
                &&& s.rec().state == Map::<Seq<char>, Seq<u8>>::empty()
                &&& !old(store).contents().contains_key(s.rec().id)
                &&& final(store).contents() == old(store).contents().insert(s.rec().id, s.rec())
                &&& s.rec().created_at == now
                &&& s.rec().last_touched_at == now
                &&& s.rec().expires_at == now + old(store).ttl()
            },
            Result::Err(e) => e == SessionError::StoreUnavailable && final(store).contents()
                == old(store).contents(),
        },
{
    match store.create(SessionState::new(), now) {
        Result::Ok(rec) => Result::Ok(
            Session { record: rec, state_changed: true, rotated: false, invalidated: false, fresh: true },
        ),
        Result::Err(e) => Result::Err(e),
    }
}

/// Start the per-request lifecycle.
///
/// If the request carried a cookie whose value names a stored, unexpired
/// record, that record becomes the working copy and the store is left
/// untouched. Otherwise — no cookie, a malformed value, an unknown
/// identifier, or an expired record — exactly one fresh record is created
/// and marked changed, so the response will carry its cookie. A malformed
/// cookie is never an error; only a failing backend is.
pub fn begin<S: SessionStore>(store: &mut S, cookie_value: Option<&str>, now: u64) -> (r: Result<
    Session,
    SessionError,
>)
    requires
        old(store).wf(),
        now + old(store).ttl() <= u64::MAX,
    ensures
        final(store).wf(),
        final(store).ttl() == old(store).ttl(),
        final(store).infallible() == old(store).infallible(),
        old(store).infallible() && presents_live_session(cookie_value, old(store).contents(), now)
            ==> r is Ok,
        match r {
            Result::Ok(s) => {
                &&& s.wf()
                &&& !s.rotated()
                &&& !s.invalidated()
                &&& if presents_live_session(cookie_value, old(store).contents(), now) {
                    &&& final(store).contents() == old(store).contents()
                    &&& !s.fresh()
                    &&& !s.state_changed()
                    &&& match presented_id(cookie_value) {
                        Option::Some(id) => s.rec() == old(store).contents()[id] && s.rec().id
                            == id,
                        Option::None => false,
                    }
                } else {
                    &&& s.fresh()
                    &&& s.state_changed()
                    &&& s.rec().state == Map::<Seq<char>, Seq<u8>>::empty()
                    &&& !old(store).contents().contains_key(s.rec().id)
                    &&& final(store).contents() == old(store).contents().insert(
                        s.rec().id,
                        s.rec(),
                    )
                    &&& s.rec().created_at == now
                    &&& s.rec().last_touched_at == now
                    &&& s.rec().expires_at == now + old(store).ttl()
                }
            },
            Result::Err(e) => e == SessionError::StoreUnavailable && final(store).contents()
                == old(store).contents(),
        },
{
    let parsed = match cookie_value {
        Option::Some(raw) => match SessionId::parse(raw) {
            Result::Ok(id) => Option::Some(id),
            // a tampered cookie never surfaces: fail open to a fresh
            // anonymous session
            Result::Err(_) => Option::None,
        },
        Option::None => Option::None,
    };
    match parsed {
        Option::Some(id) => match store.load(&id, now) {
            Result::Ok(Option::Some(rec)) => Result::Ok(
                Session {
                    record: rec,
                    state_changed: false,
                    rotated: false,
                    invalidated: false,
                    fresh: false,
                },
            ),
            Result::Ok(Option::None) => begin_fresh(store, now),
            Result::Err(e) => Result::Err(e),
        },
        Option::None => begin_fresh(store, now),
    }
}

/// Close the per-request lifecycle and decide the `Set-Cookie` header.
///
/// An invalidated session yields a clearing cookie that expires
/// immediately. A changed session is persisted, its expiry slid to
/// `now + ttl`. A cookie carrying the current identifier goes out exactly
/// when the client does not hold that identifier yet — the session was
/// created or rotated this request; anything else yields no header at
/// all, so an unchanged identifier never churns headers.
pub fn finish<S: SessionStore>(
    session: Session,
    store: &mut S,
    config: &SessionCookieConfig,
    now: u64,
) -> (r: Result<Option<String>, SessionError>)
    requires
        session.wf(),
        old(store).wf(),
        !session.invalidated() && session.state_changed() ==> now + old(store).ttl() <= u64::MAX,
    ensures
        final(store).wf(),
        final(store).ttl() == old(store).ttl(),
        final(store).infallible() == old(store).infallible(),
        session.invalidated() ==> r is Ok,
        !session.invalidated() && !session.state_changed() ==> r is Ok,
        old(store).infallible() ==> r is Ok,
        match r {
            Result::Ok(header) => {
                &&& session.invalidated() ==> {
                    &&& final(store).contents() == old(store).contents()
                    &&& header matches Option::Some(h) && h@ == render_spec(
                        config@,
                        Seq::<char>::empty(),
                        Option::Some(0u64),
                    )
                }
                &&& !session.invalidated() && session.state_changed() ==> {
                    &&& final(store).contents() == old(store).contents().insert(
                        session.rec().id,
                        saved_view(session.rec(), now, old(store).ttl()),
                    )
                    &&& (session.fresh() || session.rotated()) ==> (header matches Option::Some(h)
                        && h@ == render_spec(
                        config@,
                        hex_of(session.rec().id),
                        kind_max_age(config@.kind, old(store).ttl()),
                    ))
                    &&& !session.fresh() && !session.rotated() ==> header is None
                }
                &&& !session.invalidated() && !session.state_changed() && session.rotated() ==> {
                    &&& final(store).contents() == old(store).contents()
                    &&& header matches Option::Some(h) && h@ == render_spec(
                        config@,
                        hex_of(session.rec().id),
                        kind_max_age(config@.kind, old(store).ttl()),
                    )
                }
                &&& !session.invalidated() && !session.state_changed() && !session.rotated() ==> {
                    &&& final(store).contents() == old(store).contents()
                    &&& header is None
                }
            },
            Result::Err(e) => e == SessionError::StoreUnavailable && final(store).contents()
                == old(store).contents(),
        },
{
    if session.invalidated {
        return Result::Ok(Option::Some(render_expired_cookie(config)));
    }
    let mut record = session.record;
    if session.state_changed {
        let ttl = store.ttl_seconds();
        record.last_touched_at = now;
        record.expires_at = now + ttl;
        match store.save(&record) {
            Result::Ok(()) => {},
            Result::Err(e) => {
                return Result::Err(e);
            },
        }
        if !session.fresh && !session.rotated {
            // the client already holds this identifier: saving is owed,
            // another Set-Cookie is not
            return Result::Ok(Option::None);
        }
        let enc = record.id.encode();
        let max_age = match config.kind {
            SessionCookieKind::Persistent => Option::Some(ttl),
            SessionCookieKind::Session => Option::None,
        };
        Result::Ok(Option::Some(render_set_cookie(config, enc.as_str(), max_age)))
    } else if session.rotated {
        let ttl = store.ttl_seconds();
        let enc = record.id.encode();
        let max_age = match config.kind {
            SessionCookieKind::Persistent => Option::Some(ttl),
            SessionCookieKind::Session => Option::None,
        };
        Result::Ok(Option::Some(render_set_cookie(config, enc.as_str(), max_age)))
    } else {
        Result::Ok(Option::None)
    }
}

/// Rotation, seen on the store model: once the contents have been re-keyed
/// from `old_id` to `new_id`, the old identifier resolves to nothing and
/// the new one to the carried record — whatever state it holds.
pub proof fn lemma_rotation_effect(
    contents: Map<Seq<u8>, SessionRecordView>,
    old_id: Seq<u8>,
    new_id: Seq<u8>,
    rec: SessionRecordView,
)
    requires
        old_id != new_id,
    ensures
        !contents.remove(old_id).insert(new_id, rec).contains_key(old_id),
        contents.remove(old_id).insert(new_id, rec)[new_id] == rec,
{
}

/// Invalidation, seen on the store model: once the record is removed, its
/// identifier resolves to nothing.
pub proof fn lemma_invalidation_effect(contents: Map<Seq<u8>, SessionRecordView>, id: Seq<u8>)
    ensures
        !contents.remove(id).contains_key(id),
{
}

} // verus!
