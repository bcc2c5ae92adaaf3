//! The cache engine: entries carrying an opaque payload with creation and
//! expiration instants, and an in-memory store keyed by entry key with
//! insert, lookup-with-lazy-expiry, removal and snapshot operations.

use vstd::prelude::*;

verus! {

/// The mathematical view of a cache entry: every field as a plain value.
pub ghost struct EntryView {
    pub key: Seq<char>,
    pub data: Seq<char>,
    pub created_at: int,
    pub expires_at: int,
    pub created_by: Seq<char>,
}

/// One cached record: a key, an opaque string payload, the instants (in
/// milliseconds) at which it was created and at which it expires, and the
/// token that caused it to be stored.
pub struct CacheEntry {
    key: String,
    data: String,
    created_at: i64,
    expires_at: i64,
    created_by: String,
}

impl View for CacheEntry {
    type V = EntryView;

    closed spec fn view(&self) -> EntryView {
        EntryView {
            key: self.key@,
            data: self.data@,
            created_at: self.created_at as int,
            expires_at: self.expires_at as int,
            created_by: self.created_by@,
        }
    }
}

/// Relies on chrono's `Utc::now`, whose `timestamp_millis` is the current
/// wall-clock instant as milliseconds since the Unix epoch. Nothing can be
/// promised of the clock's reading.
#[verifier::external_body]
pub(crate) fn now_millis() -> i64 {
    chrono::Utc::now().timestamp_millis()
}

impl CacheEntry {
    /// Builds an entry whose creation instant is supplied by the caller;
    /// every field of the result is pinned down.
    pub fn new_at(
        key: String,
        data: String,
        created_at: i64,
        expires_at: i64,
        created_by: String,
    ) -> (r: Self)
        ensures
            r@ == (EntryView {
                key: key@,
                data: data@,
                created_at: created_at as int,
                expires_at: expires_at as int,
                created_by: created_by@,
            }),
    {
        CacheEntry { key, data, created_at, expires_at, created_by }
    }

    /// Builds an entry created "now": the creation instant comes from the
    /// clock, so nothing is known of it; every other field is pinned down.
    pub fn new(key: String, data: String, expires_at: i64, created_by: String) -> (r: Self)
        ensures
            r@.key == key@,
            r@.data == data@,
            r@.expires_at == expires_at as int,
            r@.created_by == created_by@,
    {
        let created_at = now_millis();
        Self::new_at(key, data, created_at, expires_at, created_by)
    }

    /// Whether this entry has expired at instant `now`.
    pub fn is_expired_at(&self, now: i64) -> (r: bool)
        ensures
            r == crate::expired_at(self@.expires_at, now as int),
    {
        now > self.expires_at
    }

    /// Whether this entry has expired at the moment of the call. The clock
    /// decides, so no single answer can be promised.
    pub fn is_expired(&self) -> bool {
        let now = now_millis();
        self.is_expired_at(now)
    }

    /// Age of the entry at instant `now`, in milliseconds, clamped to the
    /// representable range.
    pub fn age_at(&self, now: i64) -> (r: i64)
        ensures
            r as int == if now - self@.created_at > i64::MAX {
                i64::MAX as int
            } else if now - self@.created_at < i64::MIN {
                i64::MIN as int
            } else {
                now - self@.created_at
            },
    {
        let diff: i128 = now as i128 - self.created_at as i128;
        if diff > i64::MAX as i128 {
            i64::MAX
        } else if diff < i64::MIN as i128 {
            i64::MIN
        } else {
            diff as i64
        }
    }

    /// Current age of the entry in milliseconds, read off the clock; the
    /// clock decides the value.
    pub fn current_age(&self) -> i64 {
        let now = now_millis();
        self.age_at(now)
    }

    /// Max allowed age of the entry in milliseconds: the distance from its
    /// creation to its expiration instant, clamped to the representable range.
    pub fn ttl(&self) -> (r: i64)
        ensures
            r as int == if self@.expires_at - self@.created_at > i64::MAX {
                i64::MAX as int
            } else if self@.expires_at - self@.created_at < i64::MIN {
                i64::MIN as int
            } else {
                self@.expires_at - self@.created_at
            },
    {
        let diff: i128 = self.expires_at as i128 - self.created_at as i128;
        if diff > i64::MAX as i128 {
            i64::MAX
        } else if diff < i64::MIN as i128 {
            i64::MIN
        } else {
            diff as i64
        }
    }

    /// The entry's key.
    pub fn key(&self) -> (r: &String)
        ensures
            r@ == self@.key,
    {
        &self.key
    }

    /// The entry's stored payload.
    pub fn data(&self) -> (r: &String)
        ensures
            r@ == self@.data,
    {
        &self.data
    }

    /// The creation instant, in milliseconds.
    pub fn created_at(&self) -> (r: i64)
        ensures
            r as int == self@.created_at,
    {
        self.created_at
    }

    /// The expiration instant, in milliseconds.
    pub fn expires_at(&self) -> (r: i64)
        ensures
            r as int == self@.expires_at,
    {
        self.expires_at
    }

    /// The token that caused the entry to be stored.
    pub fn created_by(&self) -> (r: &String)
        ensures
            r@ == self@.created_by,
    {
        &self.created_by
    }
}

/// Whether some entry of `s` carries the key `k`.
pub open spec fn seq_has_key(s: Seq<CacheEntry>, k: Seq<char>) -> bool {
    exists|i: int| 0 <= i < s.len() && s[i]@.key == k
}

/// Whether the entries of `s` carry pairwise distinct keys.
pub open spec fn keys_unique(s: Seq<CacheEntry>) -> bool {
    forall|i: int, j: int| 0 <= i < j < s.len() ==> s[i]@.key != s[j]@.key
}

/// The view of the entry of `s` that carries the key `k` (meaningful only
/// when such an entry exists and keys are unique).
pub open spec fn entry_with_key(s: Seq<CacheEntry>, k: Seq<char>) -> EntryView {
    s[choose|i: int| 0 <= i < s.len() && s[i]@.key == k]@
}

/// The entries of `s` as a mapping from key to entry view.
pub open spec fn map_of(s: Seq<CacheEntry>) -> Map<Seq<char>, EntryView> {
    Map::new(|k: Seq<char>| seq_has_key(s, k), |k: Seq<char>| entry_with_key(s, k))
}

/// The mapping that remains of `m` once every entry expired at instant `now`
/// is swept away.
pub open spec fn swept(m: Map<Seq<char>, EntryView>, now: int) -> Map<Seq<char>, EntryView> {
    Map::new(
        |k: Seq<char>| m.dom().contains(k) && !crate::expired_at(m[k].expires_at, now),
        |k: Seq<char>| m[k],
    )
}

/// With unique keys, the entry at index `i` is the one the mapping holds
/// under its key.
proof fn lemma_at_index(s: Seq<CacheEntry>, i: int)
    requires
        keys_unique(s),
        0 <= i < s.len(),
    ensures
        seq_has_key(s, s[i]@.key),
        entry_with_key(s, s[i]@.key) == s[i]@,
        map_of(s).dom().contains(s[i]@.key),
        map_of(s)[s[i]@.key] == s[i]@,
{
    assert(seq_has_key(s, s[i]@.key));
    let j = choose|j: int| 0 <= j < s.len() && s[j]@.key == s[i]@.key;
    assert(j == i);
    assert(map_of(s).dom().contains(s[i]@.key));
    assert(map_of(s)[s[i]@.key] == s[i]@);
}

/// Removing the entry at index `i` removes exactly its key from the mapping.
proof fn lemma_remove_at(s: Seq<CacheEntry>, i: int)
    requires
        keys_unique(s),
        0 <= i < s.len(),
    ensures
        keys_unique(s.remove(i)),
        map_of(s.remove(i)) == map_of(s).remove(s[i]@.key),
{
    let t = s.remove(i);
    let k0 = s[i]@.key;
    assert(t =~= s.subrange(0, i) + s.subrange(i + 1, s.len() as int));
    assert forall|a: int, b: int| 0 <= a < b < t.len() implies t[a]@.key != t[b]@.key by {
        let a0: int = if a < i { a } else { a + 1 };
        let b0: int = if b < i { b } else { b + 1 };
        assert(t[a] == s[a0] && t[b] == s[b0]);
    }
    assert forall|k: Seq<char>| #[trigger] seq_has_key(t, k) implies seq_has_key(s, k) && k != k0
        && entry_with_key(t, k) == entry_with_key(s, k) by {
        let j = choose|j: int| 0 <= j < t.len() && t[j]@.key == k;
        let j0: int = if j < i { j } else { j + 1 };
        assert(t[j] == s[j0]);
        assert(0 <= j0 < s.len() && s[j0]@.key == k);
        assert(seq_has_key(s, k));
        if k == k0 {
            assert(s[j0]@.key == s[i]@.key && j0 != i);
            assert(false);
        }
        lemma_at_index(s, j0);
        lemma_at_index(t, j);
    }
    assert forall|k: Seq<char>| #[trigger] seq_has_key(s, k) && k != k0 implies seq_has_key(
        t,
        k,
    ) by {
        let j0 = choose|j: int| 0 <= j < s.len() && s[j]@.key == k;
        assert(j0 != i);
        let j: int = if j0 < i { j0 } else { j0 - 1 };
        assert(t[j] == s[j0]);
    }
    assert(map_of(t) =~= map_of(s).remove(k0));
}

/// Appending an entry under a fresh key adds exactly that binding to the
/// mapping.
proof fn lemma_push_fresh(s: Seq<CacheEntry>, e: CacheEntry)
    requires
        keys_unique(s),
        !seq_has_key(s, e@.key),
    ensures
        keys_unique(s.push(e)),
        map_of(s.push(e)) == map_of(s).insert(e@.key, e@),
{
    let t = s.push(e);
    let k0 = e@.key;
    assert forall|a: int, b: int| 0 <= a < b < t.len() implies t[a]@.key != t[b]@.key by {
        if b == s.len() as int {
            assert(t[a] == s[a] && t[b] == e);
            if s[a]@.key == k0 {
                assert(seq_has_key(s, k0));
            }
        } else {
            assert(t[a] == s[a] && t[b] == s[b]);
        }
    }
    assert(t[s.len() as int] == e);
    lemma_at_index(t, s.len() as int);
    assert forall|k: Seq<char>| #[trigger] seq_has_key(t, k) && k != k0 implies seq_has_key(s, k)
        && entry_with_key(t, k) == entry_with_key(s, k) by {
        let j = choose|j: int| 0 <= j < t.len() && t[j]@.key == k;
        assert(j != s.len() as int);
        assert(t[j] == s[j]);
        assert(seq_has_key(s, k));
        lemma_at_index(s, j);
        lemma_at_index(t, j);
    }
    assert forall|k: Seq<char>| #[trigger] seq_has_key(s, k) implies seq_has_key(t, k) by {
        let j = choose|j: int| 0 <= j < s.len() && s[j]@.key == k;
        assert(t[j] == s[j]);
    }
    assert(map_of(t) =~= map_of(s).insert(k0, e@));
}

/// Removing a key that no entry carries leaves the mapping as it is.
proof fn lemma_absent_key(s: Seq<CacheEntry>, k: Seq<char>)
    requires
        !seq_has_key(s, k),
    ensures
        !map_of(s).dom().contains(k),
        map_of(s).remove(k) == map_of(s),
{
    assert(map_of(s).remove(k) =~= map_of(s));
}

/// Law: inserting under a key fully replaces what the store held there. The
/// store then holds exactly the new view under that key, the old view is no
/// longer reachable under it, and every other key is untouched — so neither
/// a later lookup nor a snapshot can recover the overwritten entry.
pub proof fn lemma_insert_replaces(pre: Map<Seq<char>, EntryView>, e: EntryView)
    ensures
        pre.insert(e.key, e).dom().contains(e.key),
        pre.insert(e.key, e)[e.key] == e,
        forall|k: Seq<char>| k != e.key ==> #[trigger] pre.insert(e.key, e).dom().contains(k)
            == pre.dom().contains(k),
        forall|k: Seq<char>| k != e.key && pre.dom().contains(k) ==> #[trigger] pre.insert(
            e.key,
            e,
        )[k] == pre[k],
{
}

/// Law: a stored entry is served back as long as it lives. An entry inserted
/// into any store contents is still present, unchanged, after a sweep at any
/// instant at which it has not expired — so a lookup at such an instant
/// returns exactly the stored view, payload included.
pub proof fn lemma_insert_then_lookup(pre: Map<Seq<char>, EntryView>, e: EntryView, now: int)
    requires
        !crate::expired_at(e.expires_at, now),
    ensures
        swept(pre.insert(e.key, e), now).dom().contains(e.key),
        swept(pre.insert(e.key, e), now)[e.key] == e,
{
}

/// Law: an expired entry is never served. Whatever the store contents hold
/// under a key, if that entry's expiration time lies in the past at the
/// sweep instant, the key is gone after the sweep — so a lookup at that
/// instant reports the key absent, and a snapshot taken after the lookup no
/// longer lists it.
pub proof fn lemma_expired_not_served(pre: Map<Seq<char>, EntryView>, k: Seq<char>, now: int)
    requires
        pre.dom().contains(k) ==> crate::expired_at(pre[k].expires_at, now),
    ensures
        !swept(pre, now).dom().contains(k),
{
}

/// The in-memory store: a mapping from key to at most one entry. Inserting
/// under a held key overwrites; lookups sweep expired entries away first.
pub struct Cache {
    entries: Vec<CacheEntry>,
}

impl Cache {
    /// Internal well-formedness: no two stored entries share a key.
    pub closed spec fn wf(self) -> bool {
        keys_unique(self.entries@)
    }

    /// The store as a mathematical map from key to entry view.
    pub closed spec fn contents(self) -> Map<Seq<char>, EntryView> {
        map_of(self.entries@)
    }

    /// An empty store.
    pub fn new() -> (r: Self)
        ensures
            r.wf(),
            r.contents() == Map::<Seq<char>, EntryView>::empty(),
    {
        let r = Cache { entries: Vec::new() };
        proof {
            assert(r.contents() =~= Map::<Seq<char>, EntryView>::empty());
        }
        r
    }

    /// Removes the entry stored under `key`, if any; a no-op when the key
    /// is absent.
    fn remove_key(&mut self, key: &String)
        requires
            old(self).wf(),
        ensures
            final(self).wf(),
            final(self).contents() == old(self).contents().remove(key@),
            !old(self).contents().dom().contains(key@) ==> final(self).contents() == old(self).contents(),
    {
        let ghost s0 = self.entries@;
        let mut i: usize = 0;
        while i < self.entries.len()
            invariant
                i <= s0.len(),
                self.entries@ == s0,
                s0 == old(self).entries@,
                keys_unique(s0),
                forall|j: int| 0 <= j < i ==> s0[j]@.key != key@,
            decreases s0.len() - i,
        {
            if self.entries[i].key == *key {
                proof {
                    assert(s0[i as int]@.key == key@);
                    lemma_at_index(s0, i as int);
                    lemma_remove_at(s0, i as int);
                    assert(map_of(s0).dom().contains(key@));
                }
                let _removed = self.entries.remove(i);
                return ;
            }
            i += 1;
        }
        proof {
            assert(!seq_has_key(s0, key@));
            lemma_absent_key(s0, key@);
        }
    }

    /// Stores `entry` under its own key, overwriting any previous entry held
    /// under that key; the old value is gone from the store. Never fails.
    pub fn insert(&mut self, entry: CacheEntry)
        requires
            old(self).wf(),
        ensures
            final(self).wf(),
            final(self).contents() == old(self).contents().insert(entry@.key, entry@),
    {
        let ghost m0 = old(self).contents();
        self.remove_key(&entry.key);
        let ghost s1 = self.entries@;
        proof {
            assert(map_of(s1) == m0.remove(entry@.key));
            assert(!map_of(s1).dom().contains(entry@.key));
            assert(!seq_has_key(s1, entry@.key));
            lemma_push_fresh(s1, entry);
        }
        self.entries.push(entry);
        proof {
            assert(map_of(s1).insert(entry@.key, entry@) =~= m0.insert(entry@.key, entry@));
        }
    }

    /// Deletes the entry stored under `key` if one is present; idempotent,
    /// succeeds whether or not the key was held, and leaves the store
    /// untouched when it was not.
    pub fn clear(&mut self, key: &String)
        requires
            old(self).wf(),
        ensures
            final(self).wf(),
            final(self).contents() == old(self).contents().remove(key@),
            !old(self).contents().dom().contains(key@) ==> final(self).contents() == old(self).contents(),
    {
        self.remove_key(key);
    }

    /// The expiry sweep: removes every entry whose expiration time lies in
    /// the past at instant `now`, and nothing else.
    pub fn remove_expired(&mut self, now: i64)
        requires
            old(self).wf(),
        ensures
            final(self).wf(),
            final(self).contents() == swept(old(self).contents(), now as int),
    {
        let ghost m0 = old(self).contents();
        let mut i: usize = 0;
        while i < self.entries.len()
            invariant
                i <= self.entries@.len(),
                keys_unique(self.entries@),
                forall|j: int| 0 <= j < i ==> !crate::expired_at(
                    self.entries@[j]@.expires_at,
                    now as int,
                ),
                forall|k: Seq<char>| #[trigger] map_of(self.entries@).dom().contains(k)
                    ==> m0.dom().contains(k) && m0[k] == map_of(self.entries@)[k],
                swept(map_of(self.entries@), now as int) == swept(m0, now as int),
            decreases self.entries@.len() - i,
        {
            let expired = self.entries[i].is_expired_at(now);
            if expired {
                let ghost sa = self.entries@;
                proof {
                    lemma_at_index(sa, i as int);
                    lemma_remove_at(sa, i as int);
                    let kx = sa[i as int]@.key;
                    assert(swept(map_of(sa).remove(kx), now as int) =~= swept(
                        map_of(sa),
                        now as int,
                    ));
                }
                let _removed = self.entries.remove(i);
            } else {
                i += 1;
            }
        }
        proof {
            let s = self.entries@;
            assert forall|k: Seq<char>| #[trigger] map_of(s).dom().contains(k) implies
                !crate::expired_at(map_of(s)[k].expires_at, now as int) by {
                let j = choose|j: int| 0 <= j < s.len() && s[j]@.key == k;
                lemma_at_index(s, j);
            }
            assert(map_of(s) =~= swept(map_of(s), now as int));
        }
    }

    /// Lookup with lazy expiry: sweeps every expired entry away, then
    /// returns a copy of the entry stored under `key` if one survives.
    /// The result is never an entry already expired at instant `now`.
    pub fn get(&mut self, key: &String, now: i64) -> (r: Option<CacheEntry>)
        requires
            old(self).wf(),
        ensures
            final(self).wf(),
            final(self).contents() == swept(old(self).contents(), now as int),
            match r {
                Some(e) => final(self).contents().dom().contains(key@) && e@ == final(self).contents()[key@] && !crate::expired_at(
                    e@.expires_at,
                    now as int,
                ),
                None => !final(self).contents().dom().contains(key@),
            },
    {
        self.remove_expired(now);
        let ghost s = self.entries@;
        let mut i: usize = 0;
        while i < self.entries.len()
            invariant
                i <= s.len(),
                self.entries@ == s,
                keys_unique(s),
                map_of(s) == swept(old(self).contents(), now as int),
                forall|j: int| 0 <= j < i ==> s[j]@.key != key@,
            decreases s.len() - i,
        {
            if self.entries[i].key == *key {
                let e = self.entries[i].clone();
                proof {
                    assert(s[i as int]@.key == key@);
                    lemma_at_index(s, i as int);
                }
                return Some(e);
            }
            i += 1;
        }
        proof {
            assert(!seq_has_key(s, key@));
            lemma_absent_key(s, key@);
        }
        None
    }

    /// Lookup at the moment of the call: sweeps at the clock's current
    /// reading, which decides what is expired. Whatever the clock read, the
    /// sweep only removes entries and changes none, and a returned entry is
    /// a copy of what the store held under `key`.
    pub fn lookup(&mut self, key: &String) -> (r: Option<CacheEntry>)
        requires
            old(self).wf(),
        ensures
            final(self).wf(),
            forall|k: Seq<char>| #[trigger] final(self).contents().dom().contains(k) ==> old(
                self,
            ).contents().dom().contains(k) && final(self).contents()[k] == old(self).contents()[k],
            match r {
                Some(e) => old(self).contents().dom().contains(key@) && e@ == old(self).contents()[key@] && final(self).contents().dom().contains(key@) && final(self).contents()[key@] == e@,
                None => !final(self).contents().dom().contains(key@),
            },
    {
        let now = now_millis();
        self.get(key, now)
    }

    /// A snapshot of everything currently stored, expired or not: one copy
    /// of each entry, under pairwise distinct keys, listing exactly the
    /// store's contents. Performs no sweep.
    pub fn all(&self) -> (r: Vec<CacheEntry>)
        requires
            self.wf(),
        ensures
            keys_unique(r@),
            forall|i: int| 0 <= i < r@.len() ==> #[trigger] self.contents().dom().contains(
                r@[i]@.key,
            ) && self.contents()[r@[i]@.key] == r@[i]@,
            forall|k: Seq<char>| self.contents().dom().contains(k) ==> exists|i: int|
                0 <= i < r@.len() && #[trigger] r@[i]@.key == k,
    {
        let mut r: Vec<CacheEntry> = Vec::new();
        let mut i: usize = 0;
        while i < self.entries.len()
            invariant
                i <= self.entries@.len(),
                self.wf(),
                r@.len() == i,
                forall|j: int| 0 <= j < i ==> r@[j]@ == self.entries@[j]@,
            decreases self.entries@.len() - i,
        {
            let e = self.entries[i].clone();
            r.push(e);
            i += 1;
        }
        proof {
            let s = self.entries@;
            assert forall|i2: int| 0 <= i2 < r@.len() implies #[trigger] self.contents(
            ).dom().contains(r@[i2]@.key) && self.contents()[r@[i2]@.key] == r@[i2]@ by {
                assert(s[i2]@.key == r@[i2]@.key);
                lemma_at_index(s, i2);
            }
            assert forall|k: Seq<char>| self.contents().dom().contains(k) implies exists|i2: int|
                0 <= i2 < r@.len() && #[trigger] r@[i2]@.key == k by {
                let j = choose|j: int| 0 <= j < s.len() && s[j]@.key == k;
                assert(r@[j]@.key == k);
            }
            assert forall|a: int, b: int| 0 <= a < b < r@.len() implies r@[a]@.key
                != r@[b]@.key by {
                assert(r@[a]@ == s[a]@ && r@[b]@ == s[b]@);
            }
        }
        r
    }
}

impl Default for Cache {
    /// An empty store.
    fn default() -> (r: Self)
        ensures
            r.wf(),
            r.contents() == Map::<Seq<char>, EntryView>::empty(),
    {
        Cache::new()
    }
}

impl Clone for CacheEntry {
    fn clone(&self) -> (r: Self)
        ensures
            r@ == self@,
    {
        CacheEntry {
            key: self.key.clone(),
            data: self.data.clone(),
            created_at: self.created_at,
            expires_at: self.expires_at,
            created_by: self.created_by.clone(),
        }
    }
}

} // verus!
