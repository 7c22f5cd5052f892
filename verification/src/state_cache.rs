//! The bounded cache of entity states.

use lru::LruCache;
use vstd::prelude::*;
use vstd::string::*;

use crate::keys::actor_key;
use crate::keys::actor_key_of;
use crate::timestamps::Timestamp;

verus! {

// ---------------------------------------------------------------------------
// The cache of the `lru` crate
// ---------------------------------------------------------------------------

/// The bounded cache of the `lru` crate.
#[verifier::external_type_specification]
#[verifier::external_body]
#[verifier::reject_recursive_types(K)]
#[verifier::reject_recursive_types(V)]
#[verifier::reject_recursive_types(S)]
pub struct ExLruCache<K, V, S>(LruCache<K, V, S>);

/// The hasher that the `lru` crate takes by default.
#[verifier::external_type_specification]
#[verifier::external_body]
pub struct ExDefaultHasher(lru::DefaultHasher);

/// What a cache holds, the most recently used entry first: key, status, and the
/// seconds and nanoseconds at which the status was seen.
pub uninterp spec fn cache_entries(cache: LruCache<String, (String, i64, u32)>) -> Seq<
    (Seq<char>, Seq<char>, i64, u32),
>;

/// How many entries a cache holds at most.
pub uninterp spec fn cache_limit(cache: LruCache<String, (String, i64, u32)>) -> nat;

/// The key is in the cache.
pub open spec fn holds(entries: Seq<(Seq<char>, Seq<char>, i64, u32)>, key: Seq<char>) -> bool {
    exists|i: int| 0 <= i < entries.len() && (#[trigger] entries[i]).0 == key
}

/// The entry of a key.
pub open spec fn entry_of(
    entries: Seq<(Seq<char>, Seq<char>, i64, u32)>,
    key: Seq<char>,
) -> (Seq<char>, Seq<char>, i64, u32) {
    entries[choose|i: int| 0 <= i < entries.len() && (#[trigger] entries[i]).0 == key]
}

/// The entries of all other keys, in their order.
pub open spec fn others(
    entries: Seq<(Seq<char>, Seq<char>, i64, u32)>,
    key: Seq<char>,
) -> Seq<(Seq<char>, Seq<char>, i64, u32)>
    decreases entries.len(),
{
    if entries.len() == 0 {
        Seq::empty()
    } else if entries.last().0 == key {
        others(entries.drop_last(), key)
    } else {
        others(entries.drop_last(), key).push(entries.last())
    }
}

/// The entries after one was put: it comes first, and where the cache was full
/// of other keys the last one leaves.
pub open spec fn after_put(
    entries: Seq<(Seq<char>, Seq<char>, i64, u32)>,
    limit: nat,
    entry: (Seq<char>, Seq<char>, i64, u32),
) -> Seq<(Seq<char>, Seq<char>, i64, u32)> {
    if holds(entries, entry.0) {
        seq![entry] + others(entries, entry.0)
    } else if entries.len() == limit {
        seq![entry] + entries.drop_last()
    } else {
        seq![entry] + entries
    }
}

/// The entries after one was looked up: it comes first.
pub open spec fn after_get(
    entries: Seq<(Seq<char>, Seq<char>, i64, u32)>,
    key: Seq<char>,
) -> Seq<(Seq<char>, Seq<char>, i64, u32)> {
    if holds(entries, key) {
        seq![entry_of(entries, key)] + others(entries, key)
    } else {
        entries
    }
}

/// `LruCache::new`: an empty cache with the given limit. Past the bound in
/// `requires` its table cannot be laid out in memory.
#[verifier::external_body]
fn lru_new(limit: usize) -> (r: LruCache<String, (String, i64, u32)>)
    requires
        0 < limit <= usize::MAX / 128,
    ensures
        cache_entries(r) == Seq::<(Seq<char>, Seq<char>, i64, u32)>::empty(),
        cache_limit(r) == limit,
{
    LruCache::new(std::num::NonZeroUsize::new(limit).expect("a positive limit"))
}

/// `LruCache::put`: the entry becomes the most recently used one. A new key in a
/// full cache takes the place of the least recently used one.
#[verifier::external_body]
fn lru_put(
    cache: &mut LruCache<String, (String, i64, u32)>,
    key: String,
    status: String,
    secs: i64,
    nanos: u32,
)
    requires
        cache_limit(*old(cache)) > 0,
    ensures
        cache_limit(*final(cache)) == cache_limit(*old(cache)),
        cache_entries(*final(cache)) == after_put(
            cache_entries(*old(cache)),
            cache_limit(*old(cache)),
            (key@, status@, secs, nanos),
        ),
{
    cache.put(key, (status, secs, nanos));
}

/// `LruCache::get`: the value of the key, which becomes the most recently used
/// one.
#[verifier::external_body]
fn lru_get(cache: &mut LruCache<String, (String, i64, u32)>, key: &String) -> (r: Option<
    (String, i64, u32),
>)
    ensures
        cache_limit(*final(cache)) == cache_limit(*old(cache)),
        cache_entries(*final(cache)) == after_get(cache_entries(*old(cache)), key@),
        r is Some == holds(cache_entries(*old(cache)), key@),
        r matches Some(v) ==> (key@, v.0@, v.1, v.2) == entry_of(cache_entries(*old(cache)), key@),
{
    cache.get(key).cloned()
}

/// `LruCache::pop`: takes the key out.
#[verifier::external_body]
fn lru_pop(cache: &mut LruCache<String, (String, i64, u32)>, key: &String) -> (r: Option<
    (String, i64, u32),
>)
    ensures
        cache_limit(*final(cache)) == cache_limit(*old(cache)),
        cache_entries(*final(cache)) == others(cache_entries(*old(cache)), key@),
        r is Some == holds(cache_entries(*old(cache)), key@),
        r matches Some(v) ==> (key@, v.0@, v.1, v.2) == entry_of(cache_entries(*old(cache)), key@),
{
    cache.pop(key)
}

// ---------------------------------------------------------------------------
// The cache of entity states
// ---------------------------------------------------------------------------

/// No key occurs twice.
pub open spec fn distinct(entries: Seq<(Seq<char>, Seq<char>, i64, u32)>) -> bool {
    forall|i: int, j: int|
        #![trigger entries[i], entries[j]]
        0 <= i < j < entries.len() ==> entries[i].0 != entries[j].0
}

proof fn lemma_others(entries: Seq<(Seq<char>, Seq<char>, i64, u32)>, key: Seq<char>)
    requires
        distinct(entries),
    ensures
        distinct(others(entries, key)),
        !holds(others(entries, key), key),
        others(entries, key).len() == entries.len() - (if holds(entries, key) {
            1int
        } else {
            0int
        }),
        forall|e: (Seq<char>, Seq<char>, i64, u32)| #[trigger]
            others(entries, key).contains(e) == (entries.contains(e) && e.0 != key),
    decreases entries.len(),
{
    let o = others(entries, key);
    if entries.len() > 0 {
        let front = entries.drop_last();
        let last = entries.last();
        assert(distinct(front));
        lemma_others(front, key);
        let p = others(front, key);
        if last.0 == key {
            assert(!holds(front, key)) by {
                if holds(front, key) {
                    let i = choose|i: int| 0 <= i < front.len() && (#[trigger] front[i]).0 == key;
                    assert(entries[i].0 == entries[entries.len() - 1].0);
                }
            }
            assert(holds(entries, key)) by {
                assert(entries[entries.len() - 1].0 == key);
            }
            assert forall|e: (Seq<char>, Seq<char>, i64, u32)| #[trigger] o.contains(e) == (
            entries.contains(e) && e.0 != key) by {
                assert(p.contains(e) == (front.contains(e) && e.0 != key));
                if front.contains(e) {
                    let i = choose|i: int| 0 <= i < front.len() && front[i] == e;
                    assert(entries[i] == e);
                }
                if entries.contains(e) && e.0 != key {
                    let i = choose|i: int| 0 <= i < entries.len() && entries[i] == e;
                    assert(front[i] == e);
                }
            }
        } else {
            assert(o == p.push(last));
            assert(holds(front, key) == holds(entries, key)) by {
                if holds(front, key) {
                    let i = choose|i: int| 0 <= i < front.len() && (#[trigger] front[i]).0 == key;
                    assert(entries[i].0 == key);
                }
                if holds(entries, key) {
                    let i = choose|i: int| 0 <= i < entries.len() && (#[trigger] entries[i]).0 == key;
                    assert(front[i].0 == key);
                }
            }
            assert forall|e: (Seq<char>, Seq<char>, i64, u32)| #[trigger] o.contains(e) == (
            entries.contains(e) && e.0 != key) by {
                assert(p.contains(e) == (front.contains(e) && e.0 != key));
                if p.contains(e) {
                    let i = choose|i: int| 0 <= i < front.len() && front[i] == e;
                    assert(entries[i] == e);
                    let j = choose|j: int| 0 <= j < p.len() && p[j] == e;
                    assert(o[j] == e);
                }
                if o.contains(e) {
                    let j = choose|j: int| 0 <= j < o.len() && o[j] == e;
                    if j < p.len() {
                        assert(p[j] == e);
                    } else {
                        assert(entries[entries.len() - 1] == e);
                    }
                }
                if entries.contains(e) && e.0 != key {
                    let i = choose|i: int| 0 <= i < entries.len() && entries[i] == e;
                    if i < front.len() {
                        assert(front[i] == e);
                    } else {
                        assert(o[p.len() as int] == e);
                    }
                }
            }
            assert forall|i: int, j: int|
                #![trigger o[i], o[j]]
                0 <= i < j < o.len() implies o[i].0 != o[j].0 by {
                if j < p.len() {
                    assert(p[i].0 != p[j].0);
                } else {
                    assert(p.contains(p[i]));
                    let m = choose|m: int| 0 <= m < front.len() && front[m] == p[i];
                    assert(entries[m].0 != entries[entries.len() - 1].0);
                }
            }
            assert(!holds(o, key)) by {
                if holds(o, key) {
                    let i = choose|i: int| 0 <= i < o.len() && (#[trigger] o[i]).0 == key;
                    assert(o.contains(o[i]));
                }
            }
        }
    }
}

proof fn lemma_first_is_distinct(
    first: (Seq<char>, Seq<char>, i64, u32),
    rest: Seq<(Seq<char>, Seq<char>, i64, u32)>,
)
    requires
        distinct(rest),
        !holds(rest, first.0),
    ensures
        distinct(seq![first] + rest),
{
    let all = seq![first] + rest;
    assert forall|i: int, j: int|
        #![trigger all[i], all[j]]
        0 <= i < j < all.len() implies all[i].0 != all[j].0 by {
        if i == 0 {
            assert(all[j] == rest[j - 1]);
            assert(rest[j - 1].0 != first.0);
        } else {
            assert(rest[i - 1].0 != rest[j - 1].0);
        }
    }
}

/// Putting an entry keeps keys apart and the cache inside its limit.
pub proof fn law_put_keeps_the_cache_bounded(
    entries: Seq<(Seq<char>, Seq<char>, i64, u32)>,
    limit: nat,
    entry: (Seq<char>, Seq<char>, i64, u32),
)
    requires
        distinct(entries),
        0 < limit,
        entries.len() <= limit,
    ensures
        distinct(after_put(entries, limit, entry)),
        after_put(entries, limit, entry).len() <= limit,
{
    if holds(entries, entry.0) {
        lemma_others(entries, entry.0);
        lemma_first_is_distinct(entry, others(entries, entry.0));
    } else if entries.len() == limit {
        let rest = entries.drop_last();
        assert(distinct(rest));
        assert(!holds(rest, entry.0)) by {
            if holds(rest, entry.0) {
                let i = choose|i: int| 0 <= i < rest.len() && (#[trigger] rest[i]).0 == entry.0;
                assert(entries[i].0 == entry.0);
            }
        }
        lemma_first_is_distinct(entry, rest);
    } else {
        lemma_first_is_distinct(entry, entries);
    }
}

/// What was just put is found, and nothing but the least recently used entry
/// ever leaves on account of it.
pub proof fn law_put_entries_are_found(
    entries: Seq<(Seq<char>, Seq<char>, i64, u32)>,
    limit: nat,
    entry: (Seq<char>, Seq<char>, i64, u32),
    other: (Seq<char>, Seq<char>, i64, u32),
)
    requires
        distinct(entries),
        0 < limit,
        entries.len() <= limit,
    ensures
        holds(after_put(entries, limit, entry), entry.0),
        entry_of(after_put(entries, limit, entry), entry.0) == entry,
        entries.contains(other) && other.0 != entry.0 && !(entries.len() == limit && !holds(
            entries,
            entry.0,
        ) && other == entries.last()) ==> after_put(entries, limit, entry).contains(other),
{
    let all = after_put(entries, limit, entry);
    law_put_keeps_the_cache_bounded(entries, limit, entry);
    assert(all[0] == entry);
    let i = choose|i: int| 0 <= i < all.len() && (#[trigger] all[i]).0 == entry.0;
    if i > 0 {
        assert(all[0].0 != all[i].0);
    }
    if entries.contains(other) && other.0 != entry.0 {
        lemma_others(entries, entry.0);
        let m = choose|m: int| 0 <= m < entries.len() && entries[m] == other;
        if holds(entries, entry.0) {
            let o = others(entries, entry.0);
            assert(o.contains(other));
            let n = choose|n: int| 0 <= n < o.len() && o[n] == other;
            assert(all[n + 1] == other);
        } else if entries.len() < limit || m < entries.len() - 1 {
            assert(all[m + 1] == other);
        }
    }
}

/// Looking a key up keeps every entry.
proof fn lemma_get_keeps(entries: Seq<(Seq<char>, Seq<char>, i64, u32)>, key: Seq<char>)
    requires
        distinct(entries),
    ensures
        distinct(after_get(entries, key)),
        after_get(entries, key).len() == entries.len(),
{
    if holds(entries, key) {
        lemma_others(entries, key);
        lemma_first_is_distinct(entry_of(entries, key), others(entries, key));
    }
}

/// The statuses of entities that were seen last, at most so many.
pub struct EntityStateCache {
    inner: LruCache<String, (String, i64, u32)>,
}

impl EntityStateCache {
    /// The entries, the most recently used first.
    pub closed spec fn entries(&self) -> Seq<(Seq<char>, Seq<char>, i64, u32)> {
        cache_entries(self.inner)
    }

    /// How many entries there are at most.
    pub closed spec fn limit(&self) -> nat {
        cache_limit(self.inner)
    }

    pub open spec fn wf(&self) -> bool {
        &&& 0 < self.limit()
        &&& self.entries().len() <= self.limit()
        &&& distinct(self.entries())
    }

    /// An empty cache for `budget` entries.
    pub fn new(budget: usize) -> (r: EntityStateCache)
        requires
            0 < budget <= usize::MAX / 128,
        ensures
            r.wf(),
            r.limit() == budget,
            r.entries() == Seq::<(Seq<char>, Seq<char>, i64, u32)>::empty(),
    {
        EntityStateCache { inner: lru_new(budget) }
    }

    /// Records the status of an entity.
    pub fn record(
        &mut self,
        tenant: &str,
        entity_type: &str,
        entity_id: &str,
        status: &str,
        seen: Timestamp,
    )
        requires
            old(self).wf(),
        ensures
            final(self).wf(),
            final(self).limit() == old(self).limit(),
            final(self).entries() == after_put(
                old(self).entries(),
                old(self).limit(),
                (
                    actor_key_of(tenant@, entity_type@, entity_id@),
                    status@,
                    seen.secs,
                    seen.nanos,
                ),
            ),
    {
        let key = actor_key(tenant, entity_type, entity_id);
        proof {
            law_put_keeps_the_cache_bounded(
                self.entries(),
                self.limit(),
                (key@, status@, seen.secs, seen.nanos),
            );
        }
        lru_put(&mut self.inner, key, status.to_owned(), seen.secs, seen.nanos);
    }

    /// The status of an entity that was seen last, if it is still here.
    pub fn status(&mut self, tenant: &str, entity_type: &str, entity_id: &str) -> (r: Option<String>)
        requires
            old(self).wf(),
        ensures
            final(self).wf(),
            final(self).limit() == old(self).limit(),
            ({
                let key = actor_key_of(tenant@, entity_type@, entity_id@);
                &&& final(self).entries() == after_get(old(self).entries(), key)
                &&& r is Some == holds(old(self).entries(), key)
                &&& r matches Some(s) ==> s@ == entry_of(old(self).entries(), key).1
            }),
    {
        let key = actor_key(tenant, entity_type, entity_id);
        proof {
            lemma_get_keeps(self.entries(), key@);
        }
        match lru_get(&mut self.inner, &key) {
            Some(v) => Some(v.0),
            None => None,
        }
    }

    /// Forgets an entity.
    pub fn forget(&mut self, key: &String)
        requires
            old(self).wf(),
        ensures
            final(self).wf(),
            final(self).limit() == old(self).limit(),
            final(self).entries() == others(old(self).entries(), key@),
            !holds(final(self).entries(), key@),
    {
        proof {
            lemma_others(self.entries(), key@);
        }
        let _ = lru_pop(&mut self.inner, key);
    }

    /// How a status is resolved: from the cache, or else from the entity itself,
    /// whose status is then cached. `loaded` is asked only where the cache has
    /// nothing.
    pub fn settle_status(
        &mut self,
        tenant: &str,
        entity_type: &str,
        entity_id: &str,
        loaded: Option<String>,
        now: Timestamp,
    ) -> (r: Option<String>)
        requires
            old(self).wf(),
        ensures
            final(self).wf(),
            final(self).limit() == old(self).limit(),
            r == loaded,
            loaded is None ==> final(self).entries() == old(self).entries(),
            loaded matches Some(s) ==> final(self).entries() == after_put(
                old(self).entries(),
                old(self).limit(),
                (actor_key_of(tenant@, entity_type@, entity_id@), s@, now.secs, now.nanos),
            ),
    {
        match &loaded {
            Some(status) => {
                self.record(tenant, entity_type, entity_id, status.as_str(), now);
            },
            None => {},
        }
        loaded
    }
}

/// A key that is looked up comes first with the status that it had, nothing is lost and
/// nothing is added; a key that is not there changes nothing.
pub proof fn law_lookups_lose_nothing(
    entries: Seq<(Seq<char>, Seq<char>, i64, u32)>,
    key: Seq<char>,
    entry: (Seq<char>, Seq<char>, i64, u32),
)
    requires
        distinct(entries),
    ensures
        !holds(entries, key) ==> after_get(entries, key) == entries,
        holds(entries, key) ==> after_get(entries, key)[0].0 == key && entries.contains(
            after_get(entries, key)[0],
        ),
        after_get(entries, key).len() == entries.len(),
        after_get(entries, key).contains(entry) == entries.contains(entry),
{
    lemma_others(entries, key);
    if holds(entries, key) {
        let at = choose|i: int| 0 <= i < entries.len() && (#[trigger] entries[i]).0 == key;
        let first = entry_of(entries, key);
        assert(entries[at] == first);
        let rest = others(entries, key);
        let all = after_get(entries, key);
        assert(rest.contains(entry) == (entries.contains(entry) && entry.0 != key));
        if all.contains(entry) {
            let i = choose|i: int| 0 <= i < all.len() && all[i] == entry;
            if i > 0 {
                assert(rest[i - 1] == entry);
            }
        }
        if entries.contains(entry) {
            let i = choose|i: int| 0 <= i < entries.len() && entries[i] == entry;
            if entry.0 == key {
                assert(i == at) by {
                    if i < at {
                        assert(entries[i].0 != entries[at].0);
                    }
                    if at < i {
                        assert(entries[at].0 != entries[i].0);
                    }
                }
                assert(all[0] == entry);
            } else {
                let k = choose|k: int| 0 <= k < rest.len() && rest[k] == entry;
                assert(all[k + 1] == entry);
            }
        }
    }
}

/// Forgetting a key takes its entry out and leaves every other one.
pub proof fn law_forgetting_takes_one_key(
    entries: Seq<(Seq<char>, Seq<char>, i64, u32)>,
    key: Seq<char>,
    entry: (Seq<char>, Seq<char>, i64, u32),
)
    requires
        distinct(entries),
    ensures
        !holds(others(entries, key), key),
        entry.0 != key ==> others(entries, key).contains(entry) == entries.contains(entry),
{
    lemma_others(entries, key);
}

/// In a full cache a new key takes the place of the entry that was used least lately, and
/// comes first itself.
pub proof fn law_the_least_lately_used_entry_leaves(
    entries: Seq<(Seq<char>, Seq<char>, i64, u32)>,
    limit: nat,
    entry: (Seq<char>, Seq<char>, i64, u32),
)
    requires
        distinct(entries),
        0 < limit,
        entries.len() == limit,
        !holds(entries, entry.0),
    ensures
        after_put(entries, limit, entry)[0] == entry,
        !holds(after_put(entries, limit, entry), entries[limit - 1].0),
        after_put(entries, limit, entry).len() == limit,
{
    let all = after_put(entries, limit, entry);
    let gone = entries[limit - 1];
    assert(entries.contains(gone));
    if holds(all, gone.0) {
        let i = choose|i: int| 0 <= i < all.len() && (#[trigger] all[i]).0 == gone.0;
        if i > 0 {
            assert(all[i] == entries[i - 1]);
            assert(entries[i - 1].0 != entries[limit - 1].0);
        } else {
            assert(entries[limit - 1].0 == entry.0);
        }
    }
}

} // verus!
