//! The data a request handler reads and writes during a request: a mapping
//! of opaque serialized payloads keyed by name.
//!
//! Values are type-erased at this boundary — byte payloads under a stable
//! string key — so the store never depends on handler-side types. The
//! mathematical content of a [`SessionState`] is the finite map from key
//! characters to payload bytes.

use vstd::prelude::*;

verus! {

/// Exact equality of two string slices, by their character sequences.
pub fn str_eq(a: &str, b: &str) -> (r: bool)
    ensures
        r == (a@ == b@),
{
    let x = a.to_owned();
    let y = b.to_owned();
    x == y
}

/// The finite map denoted by a sequence of key/value entries; a later
/// entry for the same key would shadow an earlier one, but well-formed
/// states never hold two entries with one key.
pub open spec fn entries_map(s: Seq<(String, Vec<u8>)>) -> Map<Seq<char>, Seq<u8>>
    decreases s.len(),
{
    if s.len() == 0 {
        Map::empty()
    } else {
        entries_map(s.drop_last()).insert(s.last().0@, s.last().1@)
    }
}

/// Whether no two entries share a key.
pub open spec fn distinct_keys(s: Seq<(String, Vec<u8>)>) -> bool {
    forall|i: int, j: int| 0 <= i < j < s.len() ==> (#[trigger] s[i]).0@ != (#[trigger] s[j]).0@
}

/// With distinct keys, the denoted map holds exactly the entries' keys,
/// and maps each entry's key to that entry's value.
pub proof fn lemma_entries_map(s: Seq<(String, Vec<u8>)>)
    requires
        distinct_keys(s),
    ensures
        forall|k: Seq<char>|
            #[trigger] entries_map(s).contains_key(k) <==> exists|i: int|
                0 <= i < s.len() && (#[trigger] s[i]).0@ == k,
        forall|i: int|
            0 <= i < s.len() ==> entries_map(s)[(#[trigger] s[i]).0@] == s[i].1@,
    decreases s.len(),
{
    if s.len() > 0 {
        let t = s.drop_last();
        lemma_entries_map(t);
        assert(s.last() == s[s.len() - 1]);
        assert(forall|i: int| 0 <= i < t.len() ==> #[trigger] t[i] == s[i]);
        assert forall|k: Seq<char>| #[trigger]
            entries_map(s).contains_key(k) implies exists|i: int|
            0 <= i < s.len() && (#[trigger] s[i]).0@ == k by {
            if k == s.last().0@ {
                assert((s[s.len() - 1]).0@ == k);
            } else {
                assert(entries_map(t).contains_key(k));
                let i = choose|i: int| 0 <= i < t.len() && (#[trigger] t[i]).0@ == k;
                assert((s[i]).0@ == k);
            }
        }
        assert forall|k: Seq<char>| (exists|i: int|
            0 <= i < s.len() && (#[trigger] s[i]).0@ == k) implies entries_map(s).contains_key(
            k,
        ) by {
            let i = choose|i: int| 0 <= i < s.len() && (#[trigger] s[i]).0@ == k;
            if i < s.len() - 1 {
                assert((t[i]).0@ == k);
                assert(entries_map(t).contains_key(k));
            }
        }
        assert forall|i: int| 0 <= i < s.len() implies entries_map(s)[(#[trigger] s[i]).0@]
            == s[i].1@ by {
            if i < s.len() - 1 {
                assert((t[i]).0@ == s[i].0@ && (t[i]).1@ == s[i].1@);
                assert(s[i].0@ != s.last().0@);
                assert(entries_map(t)[t[i].0@] == t[i].1@);
            }
        }
    }
}

/// Replacing the entry at `i` by one with the same key denotes inserting
/// under that key in the map.
pub proof fn lemma_entries_map_update(s: Seq<(String, Vec<u8>)>, i: int, x: (String, Vec<u8>))
    requires
        distinct_keys(s),
        0 <= i < s.len(),
        s[i].0@ == x.0@,
    ensures
        distinct_keys(s.update(i, x)),
        entries_map(s.update(i, x)) == entries_map(s).insert(x.0@, x.1@),
    decreases s.len(),
{
    let u = s.update(i, x);
    assert forall|p: int, q: int| 0 <= p < q < u.len() implies (#[trigger] u[p]).0@ != (
    #[trigger] u[q]).0@ by {
        assert(s[p].0@ != s[q].0@);
    }
    let t = s.drop_last();
    if i == s.len() - 1 {
        assert(u.drop_last() =~= t);
        assert(u.last() == x);
        assert(entries_map(u) == entries_map(t).insert(x.0@, x.1@));
        assert(entries_map(s) == entries_map(t).insert(s.last().0@, s.last().1@));
        assert(entries_map(t).insert(x.0@, s.last().1@).insert(x.0@, x.1@) =~= entries_map(
            t,
        ).insert(x.0@, x.1@));
    } else {
        assert(forall|j: int| 0 <= j < t.len() ==> #[trigger] t[j] == s[j]);
        lemma_entries_map_update(t, i, x);
        assert(u.drop_last() =~= t.update(i, x));
        assert(u.last() == s.last());
        assert(s[i].0@ != s.last().0@);
        assert(entries_map(u) == entries_map(t).insert(x.0@, x.1@).insert(
            s.last().0@,
            s.last().1@,
        ));
        assert(entries_map(t).insert(x.0@, x.1@).insert(s.last().0@, s.last().1@) =~= entries_map(
            t,
        ).insert(s.last().0@, s.last().1@).insert(x.0@, x.1@));
    }
}

/// Appending an entry under a fresh key denotes inserting under that key.
pub proof fn lemma_entries_map_push(s: Seq<(String, Vec<u8>)>, x: (String, Vec<u8>))
    requires
        distinct_keys(s),
        forall|j: int| 0 <= j < s.len() ==> (#[trigger] s[j]).0@ != x.0@,
    ensures
        distinct_keys(s.push(x)),
        entries_map(s.push(x)) == entries_map(s).insert(x.0@, x.1@),
{
    let u = s.push(x);
    assert(forall|j: int| 0 <= j < s.len() ==> #[trigger] u[j] == s[j]);
    assert(u[u.len() - 1] == x);
    assert forall|p: int, q: int| 0 <= p < q < u.len() implies (#[trigger] u[p]).0@ != (
    #[trigger] u[q]).0@ by {
        if q < s.len() {
            assert(s[p].0@ != s[q].0@);
        }
    }
    assert(u.drop_last() =~= s);
    assert(u.last() == x);
}

/// Replacing the entry at `i` by one whose key occurs nowhere in the
/// sequence denotes removing the old key and inserting the new one.
proof fn lemma_entries_map_update_fresh(s: Seq<(String, Vec<u8>)>, i: int, x: (String, Vec<u8>))
    requires
        distinct_keys(s),
        0 <= i < s.len(),
        forall|j: int| 0 <= j < s.len() ==> (#[trigger] s[j]).0@ != x.0@,
    ensures
        distinct_keys(s.update(i, x)),
        entries_map(s.update(i, x)) == entries_map(s).remove(s[i].0@).insert(x.0@, x.1@),
    decreases s.len(),
{
    let k = s[i].0@;
    let t = s.drop_last();
    let u = s.update(i, x);
    lemma_entries_map(t);
    assert(forall|j: int| 0 <= j < t.len() ==> #[trigger] t[j] == s[j]);
    assert forall|p: int, q: int| 0 <= p < q < u.len() implies (#[trigger] u[p]).0@ != (
    #[trigger] u[q]).0@ by {
        assert(s[p].0@ != s[q].0@);
    }
    if i == s.len() - 1 {
        assert(u.drop_last() =~= t);
        assert(u.last() == x);
        assert(!entries_map(t).contains_key(k));
        assert(entries_map(u) == entries_map(t).insert(x.0@, x.1@));
        assert(entries_map(t).insert(k, s.last().1@).remove(k).insert(x.0@, x.1@) =~= entries_map(
            t,
        ).insert(x.0@, x.1@));
    } else {
        lemma_entries_map_update_fresh(t, i, x);
        assert(u.drop_last() =~= t.update(i, x));
        assert(u.last() == s.last());
        assert(entries_map(u) == entries_map(t).remove(k).insert(x.0@, x.1@).insert(
            s.last().0@,
            s.last().1@,
        ));
        assert(s.last().0@ != k);
        assert(s.last().0@ != x.0@);
        assert(entries_map(t).remove(k).insert(x.0@, x.1@).insert(s.last().0@, s.last().1@)
            =~= entries_map(t).insert(s.last().0@, s.last().1@).remove(k).insert(x.0@, x.1@));
    }
}

/// Moving the last entry onto position `i` and dropping the last position —
/// what `swap_remove` does — denotes removing the key of the entry at `i`.
pub proof fn lemma_entries_map_remove_idx(s: Seq<(String, Vec<u8>)>, i: int)
    requires
        distinct_keys(s),
        0 <= i < s.len(),
    ensures
        distinct_keys(s.update(i, s.last()).drop_last()),
        entries_map(s.update(i, s.last()).drop_last()) == entries_map(s).remove(s[i].0@),
{
    let k = s[i].0@;
    let t = s.drop_last();
    let u = s.update(i, s.last()).drop_last();
    lemma_entries_map(s);
    lemma_entries_map(t);
    assert(forall|j: int| 0 <= j < t.len() ==> #[trigger] t[j] == s[j]);
    if i == s.len() - 1 {
        assert(u =~= t);
        assert(!entries_map(t).contains_key(k));
        assert(entries_map(s).remove(k) =~= entries_map(t));
    } else {
        assert(u =~= t.update(i, s.last()));
        assert(forall|j: int| 0 <= j < t.len() ==> (#[trigger] t[j]).0@ != s.last().0@);
        lemma_entries_map_update_fresh(t, i, s.last());
        assert(entries_map(u) == entries_map(t).remove(k).insert(s.last().0@, s.last().1@));
        assert(s.last().0@ != k);
        assert(entries_map(s).remove(k) == entries_map(t).insert(s.last().0@, s.last().1@).remove(
            k,
        ));
        assert(entries_map(t).remove(k).insert(s.last().0@, s.last().1@) =~= entries_map(t).insert(
            s.last().0@,
            s.last().1@,
        ).remove(k));
    }
}

/// The per-session state mapping: typed get/insert/remove over string
/// names, values held as opaque serialized payloads.
pub struct SessionState {
    entries: Vec<(String, Vec<u8>)>,
}

impl View for SessionState {
    type V = Map<Seq<char>, Seq<u8>>;

    closed spec fn view(&self) -> Map<Seq<char>, Seq<u8>> {
        entries_map(self.entries@)
    }
}

impl SessionState {
    /// Well-formed: no key occurs twice.
    pub closed spec fn wf(&self) -> bool {
        distinct_keys(self.entries@)
    }

    /// The empty state.
    pub fn new() -> (r: SessionState)
        ensures
            r.wf(),
            r@ == Map::<Seq<char>, Seq<u8>>::empty(),
    {
        SessionState { entries: Vec::new() }
    }

    /// The position of the entry for `key`, or `None` if there is none.
    fn find(&self, key: &str) -> (r: Option<usize>)
        requires
            self.wf(),
        ensures
            r matches Option::Some(i) ==> i < self.entries@.len() && self.entries@[i as int].0@
                == key@,
            r is None ==> forall|j: int|
                0 <= j < self.entries@.len() ==> (#[trigger] self.entries@[j]).0@ != key@,
    {
        let mut i: usize = 0;
        while i < self.entries.len()
            invariant
                i <= self.entries@.len(),
                forall|j: int| 0 <= j < i ==> (#[trigger] self.entries@[j]).0@ != key@,
            decreases self.entries@.len() - i,
        {
            if str_eq(self.entries[i].0.as_str(), key) {
                return Option::Some(i);
            }
            i = i + 1;
        }
        Option::None
    }

    /// Look up the payload stored under `key`.
    pub fn get(&self, key: &str) -> (r: Option<&Vec<u8>>)
        requires
            self.wf(),
        ensures
            r matches Option::Some(v) ==> self@.contains_key(key@) && v@ == self@[key@],
            r is None ==> !self@.contains_key(key@),
    {
        proof {
            lemma_entries_map(self.entries@);
        }
        match self.find(key) {
            Option::Some(i) => Option::Some(&self.entries[i].1),
            Option::None => Option::None,
        }
    }

    /// Store `value` under `key`, replacing any previous payload.
    pub fn insert(&mut self, key: String, value: Vec<u8>)
        requires
            old(self).wf(),
        ensures
            final(self).wf(),
            final(self)@ == old(self)@.insert(key@, value@),
    {
        let r = self.find(key.as_str());
        let ghost x: (String, Vec<u8>) = (key, value);
        match r {
            Option::Some(i) => {
                self.entries[i] = (key, value);
                proof {
                    lemma_entries_map_update(old(self).entries@, i as int, x);
                    assert(self.entries@ == old(self).entries@.update(i as int, x));
                }
            },
            Option::None => {
                self.entries.push((key, value));
                proof {
                    lemma_entries_map_push(old(self).entries@, x);
                    assert(self.entries@ == old(self).entries@.push(x));
                }
            },
        }
    }

    /// Remove the payload stored under `key`, if any; removing an absent
    /// key changes nothing.
    pub fn remove(&mut self, key: &str)
        requires
            old(self).wf(),
        ensures
            final(self).wf(),
            final(self)@ == old(self)@.remove(key@),
    {
        let r = self.find(key);
        match r {
            Option::Some(i) => {
                let _ = self.entries.swap_remove(i);
                proof {
                    lemma_entries_map_remove_idx(old(self).entries@, i as int);
                }
            },
            Option::None => {
                proof {
                    lemma_entries_map(self.entries@);
                    assert(self@ =~= old(self)@.remove(key@));
                }
            },
        }
    }

    /// The number of keys held.
    pub fn len(&self) -> (r: usize)
        requires
            self.wf(),
        ensures
            r == self@.dom().len(),
    {
        proof {
            lemma_entries_map(self.entries@);
            lemma_distinct_entries_dom(self.entries@);
        }
        self.entries.len()
    }

    /// A deep copy: the same mapping, independently owned.
    pub fn duplicate(&self) -> (r: SessionState)
        requires
            self.wf(),
        ensures
            r.wf(),
            r@ == self@,
    {
        let mut entries: Vec<(String, Vec<u8>)> = Vec::new();
        let mut i: usize = 0;
        while i < self.entries.len()
            invariant
                i <= self.entries@.len(),
                entries@.len() == i,
                forall|j: int|
                    0 <= j < i ==> (#[trigger] entries@[j]).0@ == self.entries@[j].0@
                        && entries@[j].1@ == self.entries@[j].1@,
            decreases self.entries@.len() - i,
        {
            let k = self.entries[i].0.clone();
            let v = self.entries[i].1.clone();
            proof {
                assert(v@ =~= self.entries@[i as int].1@);
            }
            entries.push((k, v));
            i = i + 1;
        }
        let r = SessionState { entries };
        proof {
            lemma_same_views_same_map(r.entries@, self.entries@);
            assert(r@ =~= self@);
        }
        r
    }
}

/// With distinct keys, the denoted map has exactly one key per entry.
proof fn lemma_distinct_entries_dom(s: Seq<(String, Vec<u8>)>)
    requires
        distinct_keys(s),
    ensures
        entries_map(s).dom().len() == s.len(),
        entries_map(s).dom().finite(),
    decreases s.len(),
{
    if s.len() > 0 {
        let t = s.drop_last();
        lemma_distinct_entries_dom(t);
        lemma_entries_map(t);
        assert(!entries_map(t).contains_key(s.last().0@));
        assert(entries_map(s).dom() =~= entries_map(t).dom().insert(s.last().0@));
        vstd::set::axiom_set_insert_len(entries_map(t).dom(), s.last().0@);
    }
}

/// Two entry sequences whose keys and values agree view-by-view denote the
/// same map.
proof fn lemma_same_views_same_map(a: Seq<(String, Vec<u8>)>, b: Seq<(String, Vec<u8>)>)
    requires
        a.len() == b.len(),
        forall|j: int|
            0 <= j < a.len() ==> (#[trigger] a[j]).0@ == b[j].0@ && a[j].1@ == b[j].1@,
    ensures
        entries_map(a) == entries_map(b),
    decreases a.len(),
{
    if a.len() > 0 {
        lemma_same_views_same_map(a.drop_last(), b.drop_last());
        assert(a.last().0@ == b[a.len() - 1].0@ && a.last().1@ == b[a.len() - 1].1@);
        assert(entries_map(a) =~= entries_map(b));
    }
}

} // verus!
