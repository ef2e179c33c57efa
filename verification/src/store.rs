//! Session persistence: the canonical session record, the store contract
//! every backend must meet, and a verified in-memory backend.
//!
//! Correctness of the per-request lifecycle depends only on the contract —
//! the five operations and what they do to the store's contents — not on
//! the backing mechanism. A backend's contents are modelled as a finite
//! map from identifier bytes to record views.

use vstd::prelude::*;
use crate::id::SessionId;
use crate::state::SessionState;

verus! {

/// Everything that can go wrong in the session subsystem.
#[derive(Debug, Clone, Copy, PartialEq, Eq, Structural)]
pub enum SessionError {
    /// A malformed or tampered cookie value. Recovered locally: the request
    /// proceeds with a fresh anonymous session, never an error page.
    InvalidIdFormat,
    /// The backend (or the random source a backend needs) failed. Surfaced
    /// to the caller: a request must not report success while session
    /// changes were silently lost.
    StoreUnavailable,
    /// A rotation raced with another change of the same identifier; the
    /// caller should retry the operation that triggered the rotation.
    RotationConflict,
}

/// The canonical unit of per-client state, owned by the store; the
/// per-request lifecycle works on a copy.
pub struct SessionRecord {
    /// The identifier under which the record is stored.
    pub id: SessionId,
    /// The handler-visible data.
    pub state: SessionState,
    /// When the session was created, in seconds.
    pub created_at: u64,
    /// When the session was last written, in seconds.
    pub last_touched_at: u64,
    /// The absolute expiry instant, in seconds: the record is dead once
    /// the clock reaches it.
    pub expires_at: u64,
}

/// The mathematical content of a [`SessionRecord`].
pub struct SessionRecordView {
    pub id: Seq<u8>,
    pub state: Map<Seq<char>, Seq<u8>>,
    pub created_at: u64,
    pub last_touched_at: u64,
    pub expires_at: u64,
}

impl View for SessionRecord {
    type V = SessionRecordView;

    open spec fn view(&self) -> SessionRecordView {
        SessionRecordView {
            id: self.id@,
            state: self.state@,
            created_at: self.created_at,
            last_touched_at: self.last_touched_at,
            expires_at: self.expires_at,
        }
    }
}

/// Whether a record is still alive at instant `now`.
pub open spec fn live(r: SessionRecordView, now: u64) -> bool {
    now < r.expires_at
}

impl SessionRecord {
    /// Well-formed: the identifier has its full length and the state holds
    /// no key twice.
    pub open spec fn wf(&self) -> bool {
        self.id.wf() && self.state.wf()
    }

    /// A deep copy: the same view, independently owned.
    pub fn duplicate(&self) -> (r: SessionRecord)
        requires
            self.wf(),
        ensures
            r.wf(),
            r@ == self@,
    {
        SessionRecord {
            id: self.id.duplicate(),
            state: self.state.duplicate(),
            created_at: self.created_at,
            last_touched_at: self.last_touched_at,
            expires_at: self.expires_at,
        }
    }
}

/// The persistence contract. Any backend — in-memory map, external cache,
/// database — must meet it; the lifecycle depends on nothing else.
///
/// `contents()` is the backend's canonical map of live and expired records;
/// `ttl()` its expiry policy; `infallible()` says the backend itself cannot
/// fail (creation may still fail, since fresh identifiers need the random
/// source).
pub trait SessionStore: Sized {
    /// The records held, keyed by identifier bytes.
    spec fn contents(&self) -> Map<Seq<u8>, SessionRecordView>;

    /// The backend's internal invariant.
    spec fn wf(&self) -> bool;

    /// Whether the backend's own operations never report
    /// [`SessionError::StoreUnavailable`].
    spec fn infallible(&self) -> bool;

    /// The expiry policy: seconds from a write to absolute expiry.
    spec fn ttl(&self) -> u64;

    /// The expiry policy, for callers that compute with it.
    fn ttl_seconds(&self) -> (r: u64)
        ensures
            r == self.ttl(),
    ;

    /// Allocate a fresh identifier, write a record holding `initial_state`
    /// with timestamps at `now`, and return the record. The new identifier
    /// never collides with a stored one. Fails only with
    /// [`SessionError::StoreUnavailable`], and then changes nothing; even an
    /// infallible backend may fail here if the random source does.
    fn create(&mut self, initial_state: SessionState, now: u64) -> (r: Result<
        SessionRecord,
        SessionError,
    >)
        requires
            old(self).wf(),
            initial_state.wf(),
            now + old(self).ttl() <= u64::MAX,
        ensures
            final(self).wf(),
            final(self).ttl() == old(self).ttl(),
            final(self).infallible() == old(self).infallible(),
            match r {
                Result::Ok(rec) => {
                    &&& rec.wf()
                    &&& !old(self).contents().contains_key(rec.id@)
                    &&& final(self).contents() == old(self).contents().insert(rec.id@, rec@)
                    &&& rec@.state == initial_state@
                    &&& rec@.created_at == now
                    &&& rec@.last_touched_at == now
                    &&& rec@.expires_at == now + old(self).ttl()
                },
                Result::Err(e) => e == SessionError::StoreUnavailable && final(self).contents()
                    == old(self).contents(),
            },
    ;

    /// Fetch the record stored under `id`: `None` when the identifier is
    /// absent or the record has expired — an expired record is never
    /// handed out.
    fn load(&self, id: &SessionId, now: u64) -> (r: Result<Option<SessionRecord>, SessionError>)
        requires
            self.wf(),
            id.wf(),
        ensures
            match r {
                Result::Ok(found) => match found {
                    Option::Some(rec) => {
                        &&& rec.wf()
                        &&& rec.id@ == id@
                        &&& self.contents().contains_key(id@)
                        &&& rec@ == self.contents()[id@]
                        &&& live(rec@, now)
                    },
                    Option::None => !self.contents().contains_key(id@) || !live(
                        self.contents()[id@],
                        now,
                    ),
                },
                Result::Err(e) => e == SessionError::StoreUnavailable,
            },
            self.infallible() ==> !(r is Err),
    ;

    /// Upsert: afterwards the record is stored under its identifier,
    /// whether or not that identifier was present before. A backend must
    /// serialize writes per identifier; concurrent requests saving under
    /// one identifier are last-writer-wins, never a torn record.
    fn save(&mut self, record: &SessionRecord) -> (r: Result<(), SessionError>)
        requires
            old(self).wf(),
            record.wf(),
        ensures
            final(self).wf(),
            final(self).ttl() == old(self).ttl(),
            final(self).infallible() == old(self).infallible(),
            match r {
                Result::Ok(()) => final(self).contents() == old(self).contents().insert(
                    record.id@,
                    record@,
                ),
                Result::Err(e) => e == SessionError::StoreUnavailable && final(self).contents()
                    == old(self).contents(),
            },
            old(self).infallible() ==> !(r is Err),
    ;

    /// Idempotent removal: afterwards nothing is stored under `id`;
    /// deleting an absent identifier is not an error.
    fn delete(&mut self, id: &SessionId) -> (r: Result<(), SessionError>)
        requires
            old(self).wf(),
            id.wf(),
        ensures
            final(self).wf(),
            final(self).ttl() == old(self).ttl(),
            final(self).infallible() == old(self).infallible(),
            match r {
                Result::Ok(()) => final(self).contents() == old(self).contents().remove(id@),
                Result::Err(e) => e == SessionError::StoreUnavailable && final(self).contents()
                    == old(self).contents(),
            },
            old(self).infallible() ==> !(r is Err),
    ;

    /// Atomically re-key: afterwards `old_id` resolves to nothing and
    /// `new_id` to `record`, or — on any error — the contents are exactly
    /// as before; a rotation is never visible half-applied.
    /// [`SessionError::RotationConflict`] reports that `old_id` was no
    /// longer present, or that `new_id` already named a different record.
    fn rotate(&mut self, old_id: &SessionId, new_id: &SessionId, record: &SessionRecord) -> (r:
        Result<(), SessionError>)
        requires
            old(self).wf(),
            old_id.wf(),
            new_id.wf(),
            record.wf(),
            record.id@ == new_id@,
        ensures
            final(self).wf(),
            final(self).ttl() == old(self).ttl(),
            final(self).infallible() == old(self).infallible(),
            match r {
                Result::Ok(()) => {
                    &&& old(self).contents().contains_key(old_id@)
                    &&& final(self).contents() == old(self).contents().remove(old_id@).insert(
                        new_id@,
                        record@,
                    )
                },
                Result::Err(e) => {
                    &&& final(self).contents() == old(self).contents()
                    &&& e != SessionError::InvalidIdFormat
                    &&& e == SessionError::RotationConflict ==> (!old(self).contents().contains_key(
                        old_id@,
                    ) || (old_id@ != new_id@ && old(self).contents().contains_key(new_id@)))
                },
            },
            old(self).infallible() ==> ((r is Ok) <==> (old(self).contents().contains_key(old_id@)
                && (old_id@ == new_id@ || !old(self).contents().contains_key(new_id@)))),
    ;
}

/// The map denoted by a sequence of records, keyed by identifier bytes.
pub open spec fn records_map(s: Seq<SessionRecord>) -> Map<Seq<u8>, SessionRecordView>
    decreases s.len(),
{
    if s.len() == 0 {
        Map::empty()
    } else {
        records_map(s.drop_last()).insert(s.last().id@, s.last()@)
    }
}

/// Whether no two records share an identifier.
pub open spec fn distinct_ids(s: Seq<SessionRecord>) -> bool {
    forall|i: int, j: int| 0 <= i < j < s.len() ==> (#[trigger] s[i]).id@ != (#[trigger] s[j]).id@
}

/// With distinct identifiers, the denoted map holds exactly the records'
/// identifiers, and maps each to that record's view.
pub proof fn lemma_records_map(s: Seq<SessionRecord>)
    requires
        distinct_ids(s),
    ensures
        forall|k: Seq<u8>|
            #[trigger] records_map(s).contains_key(k) <==> exists|i: int|
                0 <= i < s.len() && (#[trigger] s[i]).id@ == k,
        forall|i: int| 0 <= i < s.len() ==> records_map(s)[(#[trigger] s[i]).id@] == s[i]@,
    decreases s.len(),
{
    if s.len() > 0 {
        let t = s.drop_last();
        lemma_records_map(t);
        assert(s.last() == s[s.len() - 1]);
        assert(forall|i: int| 0 <= i < t.len() ==> #[trigger] t[i] == s[i]);
        assert forall|k: Seq<u8>| #[trigger]
            records_map(s).contains_key(k) implies exists|i: int|
            0 <= i < s.len() && (#[trigger] s[i]).id@ == k by {
            if k == s.last().id@ {
                assert((s[s.len() - 1]).id@ == k);
            } else {
                assert(records_map(t).contains_key(k));
                let i = choose|i: int| 0 <= i < t.len() && (#[trigger] t[i]).id@ == k;
                assert((s[i]).id@ == k);
            }
        }
        assert forall|k: Seq<u8>| (exists|i: int|
            0 <= i < s.len() && (#[trigger] s[i]).id@ == k) implies records_map(s).contains_key(
            k,
        ) by {
            let i = choose|i: int| 0 <= i < s.len() && (#[trigger] s[i]).id@ == k;
            if i < s.len() - 1 {
                assert((t[i]).id@ == k);
                assert(records_map(t).contains_key(k));
            }
        }
        assert forall|i: int| 0 <= i < s.len() implies records_map(s)[(#[trigger] s[i]).id@]
            == s[i]@ by {
            if i < s.len() - 1 {
                assert((t[i]).id@ == s[i].id@ && (t[i])@ == s[i]@);
                assert(s[i].id@ != s.last().id@);
                assert(records_map(t)[t[i].id@] == t[i]@);
            }
        }
    }
}

/// Replacing the record at `i` by one with the same identifier denotes
/// inserting under that identifier.
proof fn lemma_records_map_update(s: Seq<SessionRecord>, i: int, x: SessionRecord)
    requires
        distinct_ids(s),
        0 <= i < s.len(),
        s[i].id@ == x.id@,
    ensures
        distinct_ids(s.update(i, x)),
        records_map(s.update(i, x)) == records_map(s).insert(x.id@, x@),
    decreases s.len(),
{
    let u = s.update(i, x);
    assert forall|p: int, q: int| 0 <= p < q < u.len() implies (#[trigger] u[p]).id@ != (
    #[trigger] u[q]).id@ by {
        assert(s[p].id@ != s[q].id@);
    }
    let t = s.drop_last();
    if i == s.len() - 1 {
        assert(u.drop_last() =~= t);
        assert(u.last() == x);
        assert(records_map(u) == records_map(t).insert(x.id@, x@));
        assert(records_map(s) == records_map(t).insert(s.last().id@, s.last()@));
        assert(records_map(t).insert(x.id@, s.last()@).insert(x.id@, x@) =~= records_map(t).insert(
            x.id@,
            x@,
        ));
    } else {
        assert(forall|j: int| 0 <= j < t.len() ==> #[trigger] t[j] == s[j]);
        lemma_records_map_update(t, i, x);
        assert(u.drop_last() =~= t.update(i, x));
        assert(u.last() == s.last());
        assert(s[i].id@ != s.last().id@);
        assert(records_map(u) == records_map(t).insert(x.id@, x@).insert(s.last().id@, s.last()@));
        assert(records_map(t).insert(x.id@, x@).insert(s.last().id@, s.last()@) =~= records_map(
            t,
        ).insert(s.last().id@, s.last()@).insert(x.id@, x@));
    }
}

/// Appending a record under a fresh identifier denotes inserting under it.
proof fn lemma_records_map_push(s: Seq<SessionRecord>, x: SessionRecord)
    requires
        distinct_ids(s),
        forall|j: int| 0 <= j < s.len() ==> (#[trigger] s[j]).id@ != x.id@,
    ensures
        distinct_ids(s.push(x)),
        records_map(s.push(x)) == records_map(s).insert(x.id@, x@),
{
    let u = s.push(x);
    assert(forall|j: int| 0 <= j < s.len() ==> #[trigger] u[j] == s[j]);
    assert(u[u.len() - 1] == x);
    assert forall|p: int, q: int| 0 <= p < q < u.len() implies (#[trigger] u[p]).id@ != (
    #[trigger] u[q]).id@ by {
        if q < s.len() {
            assert(s[p].id@ != s[q].id@);
        }
    }
    assert(u.drop_last() =~= s);
    assert(u.last() == x);
}

/// Replacing the record at `i` by one whose identifier occurs nowhere in
/// the sequence denotes removing the old identifier and inserting the new.
proof fn lemma_records_map_update_fresh(s: Seq<SessionRecord>, i: int, x: SessionRecord)
    requires
        distinct_ids(s),
        0 <= i < s.len(),
        forall|j: int| 0 <= j < s.len() ==> (#[trigger] s[j]).id@ != x.id@,
    ensures
        distinct_ids(s.update(i, x)),
        records_map(s.update(i, x)) == records_map(s).remove(s[i].id@).insert(x.id@, x@),
    decreases s.len(),
{
    let k = s[i].id@;
    let t = s.drop_last();
    let u = s.update(i, x);
    lemma_records_map(t);
    assert(forall|j: int| 0 <= j < t.len() ==> #[trigger] t[j] == s[j]);
    assert forall|p: int, q: int| 0 <= p < q < u.len() implies (#[trigger] u[p]).id@ != (
    #[trigger] u[q]).id@ by {
        assert(s[p].id@ != s[q].id@);
    }
    if i == s.len() - 1 {
        assert(u.drop_last() =~= t);
        assert(u.last() == x);
        assert(!records_map(t).contains_key(k));
        assert(records_map(u) == records_map(t).insert(x.id@, x@));
        assert(records_map(t).insert(k, s.last()@).remove(k).insert(x.id@, x@) =~= records_map(
            t,
        ).insert(x.id@, x@));
    } else {
        lemma_records_map_update_fresh(t, i, x);
        assert(u.drop_last() =~= t.update(i, x));
        assert(u.last() == s.last());
        assert(records_map(u) == records_map(t).remove(k).insert(x.id@, x@).insert(
            s.last().id@,
            s.last()@,
        ));
        assert(s.last().id@ != k);
        assert(s.last().id@ != x.id@);
        assert(records_map(t).remove(k).insert(x.id@, x@).insert(s.last().id@, s.last()@)
            =~= records_map(t).insert(s.last().id@, s.last()@).remove(k).insert(x.id@, x@));
    }
}

/// Moving the last record onto position `i` and dropping the last position
/// — what `swap_remove` does — denotes removing the identifier at `i`.
proof fn lemma_records_map_remove_idx(s: Seq<SessionRecord>, i: int)
    requires
        distinct_ids(s),
        0 <= i < s.len(),
    ensures
        distinct_ids(s.update(i, s.last()).drop_last()),
        records_map(s.update(i, s.last()).drop_last()) == records_map(s).remove(s[i].id@),
{
    let k = s[i].id@;
    let t = s.drop_last();
    let u = s.update(i, s.last()).drop_last();
    lemma_records_map(s);
    lemma_records_map(t);
    assert(forall|j: int| 0 <= j < t.len() ==> #[trigger] t[j] == s[j]);
    if i == s.len() - 1 {
        assert(u =~= t);
        assert(!records_map(t).contains_key(k));
        assert(records_map(s).remove(k) =~= records_map(t));
    } else {
        assert(u =~= t.update(i, s.last()));
        assert(forall|j: int| 0 <= j < t.len() ==> (#[trigger] t[j]).id@ != s.last().id@);
        lemma_records_map_update_fresh(t, i, s.last());
        assert(records_map(u) == records_map(t).remove(k).insert(s.last().id@, s.last()@));
        assert(s.last().id@ != k);
        assert(records_map(s).remove(k) == records_map(t).insert(s.last().id@, s.last()@).remove(
            k,
        ));
        assert(records_map(t).remove(k).insert(s.last().id@, s.last()@) =~= records_map(t).insert(
            s.last().id@,
            s.last()@,
        ).remove(k));
    }
}

/// With distinct identifiers, the denoted map has one key per record.
proof fn lemma_distinct_records_dom(s: Seq<SessionRecord>)
    requires
        distinct_ids(s),
    ensures
        records_map(s).dom().len() == s.len(),
        records_map(s).dom().finite(),
    decreases s.len(),
{
    if s.len() > 0 {
        let t = s.drop_last();
        lemma_distinct_records_dom(t);
        lemma_records_map(t);
        assert(forall|i: int| 0 <= i < t.len() ==> #[trigger] t[i] == s[i]);
        assert(!records_map(t).contains_key(s.last().id@));
        assert(records_map(s).dom() =~= records_map(t).dom().insert(s.last().id@));
        vstd::set::axiom_set_insert_len(records_map(t).dom(), s.last().id@);
    }
}

/// A backend holding everything in process memory. Suited to a single
/// process; state is gone when the process ends.
pub struct InMemoryStore {
    records: Vec<SessionRecord>,
    ttl_seconds: u64,
}

impl InMemoryStore {
    /// An empty store whose records expire `ttl_seconds` after a write.
    pub fn new(ttl_seconds: u64) -> (r: InMemoryStore)
        ensures
            r.wf(),
            r.infallible(),
            r.ttl() == ttl_seconds,
            r.contents() == Map::<Seq<u8>, SessionRecordView>::empty(),
    {
        InMemoryStore { records: Vec::new(), ttl_seconds }
    }

    /// The number of records held, expired ones included.
    pub fn count(&self) -> (r: usize)
        requires
            self.wf(),
        ensures
            r == self.contents().dom().len(),
    {
        proof {
            lemma_distinct_records_dom(self.records@);
        }
        self.records.len()
    }

    /// The position of the record stored under `id`, if any.
    fn find_idx(&self, id: &SessionId) -> (r: Option<usize>)
        ensures
            r matches Option::Some(i) ==> i < self.records@.len() && self.records@[i as int].id@
                == id@,
            r is None ==> forall|j: int|
                0 <= j < self.records@.len() ==> (#[trigger] self.records@[j]).id@ != id@,
    {
        let mut i: usize = 0;
        while i < self.records.len()
            invariant
                i <= self.records@.len(),
                forall|j: int| 0 <= j < i ==> (#[trigger] self.records@[j]).id@ != id@,
            decreases self.records@.len() - i,
        {
            if self.records[i].id.equals(id) {
                return Option::Some(i);
            }
            i = i + 1;
        }
        Option::None
    }
}

impl SessionStore for InMemoryStore {
    closed spec fn contents(&self) -> Map<Seq<u8>, SessionRecordView> {
        records_map(self.records@)
    }

    closed spec fn wf(&self) -> bool {
        distinct_ids(self.records@) && forall|i: int|
            0 <= i < self.records@.len() ==> (#[trigger] self.records@[i]).wf()
    }

    closed spec fn infallible(&self) -> bool {
        true
    }

    closed spec fn ttl(&self) -> u64 {
        self.ttl_seconds
    }

    fn ttl_seconds(&self) -> (r: u64) {
        self.ttl_seconds
    }

    fn create(&mut self, initial_state: SessionState, now: u64) -> (r: Result<
        SessionRecord,
        SessionError,
    >) {
        proof {
            lemma_records_map(self.records@);
        }
        let mut attempts: usize = 16;
        while attempts > 0
            invariant
                self == old(self),
                self.wf(),
                initial_state.wf(),
                now + self.ttl() <= u64::MAX,
            decreases attempts,
        {
            let id = match SessionId::generate() {
                Option::Some(id) => id,
                Option::None => {
                    return Result::Err(SessionError::StoreUnavailable);
                },
            };
            match self.find_idx(&id) {
                Option::Some(_) => {
                    // an extant identifier: vanishingly unlikely, but retry
                    // rather than ever handing two clients one session
                    attempts = attempts - 1;
                },
                Option::None => {
                    let record = SessionRecord {
                        id,
                        state: initial_state,
                        created_at: now,
                        last_touched_at: now,
                        expires_at: now + self.ttl_seconds,
                    };
                    let returned = record.duplicate();
                    proof {
                        lemma_records_map(self.records@);
                        lemma_records_map_push(self.records@, record);
                    }
                    self.records.push(record);
                    return Result::Ok(returned);
                },
            }
        }
        Result::Err(SessionError::StoreUnavailable)
    }

    fn load(&self, id: &SessionId, now: u64) -> (r: Result<Option<SessionRecord>, SessionError>) {
        proof {
            lemma_records_map(self.records@);
        }
        match self.find_idx(id) {
            Option::Some(i) => {
                if now < self.records[i].expires_at {
                    Result::Ok(Option::Some(self.records[i].duplicate()))
                } else {
                    Result::Ok(Option::None)
                }
            },
            Option::None => Result::Ok(Option::None),
        }
    }

    fn save(&mut self, record: &SessionRecord) -> (r: Result<(), SessionError>) {
        proof {
            lemma_records_map(self.records@);
        }
        let copy = record.duplicate();
        match self.find_idx(&copy.id) {
            Option::Some(i) => {
                proof {
                    lemma_records_map_update(self.records@, i as int, copy);
                }
                self.records[i] = copy;
            },
            Option::None => {
                proof {
                    lemma_records_map_push(self.records@, copy);
                }
                self.records.push(copy);
            },
        }
        Result::Ok(())
    }

    fn delete(&mut self, id: &SessionId) -> (r: Result<(), SessionError>) {
        proof {
            lemma_records_map(self.records@);
        }
        match self.find_idx(id) {
            Option::Some(i) => {
                proof {
                    lemma_records_map_remove_idx(self.records@, i as int);
                }
                let _ = self.records.swap_remove(i);
            },
            Option::None => {
                proof {
                    assert(records_map(self.records@) =~= records_map(self.records@).remove(id@));
                }
            },
        }
        Result::Ok(())
    }

    fn rotate(&mut self, old_id: &SessionId, new_id: &SessionId, record: &SessionRecord) -> (r:
        Result<(), SessionError>) {
        proof {
            lemma_records_map(self.records@);
        }
        let i = match self.find_idx(old_id) {
            Option::Some(i) => i,
            Option::None => {
                return Result::Err(SessionError::RotationConflict);
            },
        };
        let copy = record.duplicate();
        if old_id.equals(new_id) {
            proof {
                lemma_records_map_update(self.records@, i as int, copy);
                assert(records_map(self.records@).insert(new_id@, copy@) =~= records_map(
                    self.records@,
                ).remove(old_id@).insert(new_id@, copy@));
            }
            self.records[i] = copy;
            Result::Ok(())
        } else {
            match self.find_idx(new_id) {
                Option::Some(_) => Result::Err(SessionError::RotationConflict),
                Option::None => {
                    proof {
                        lemma_records_map_update_fresh(self.records@, i as int, copy);
                    }
                    self.records[i] = copy;
                    Result::Ok(())
                },
            }
        }
    }
}

} // verus!
