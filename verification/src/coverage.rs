//! What is known of how far the key index covers each type.
//!
//! Coverage is trusted only where the store has just confirmed it. Every doubt
//! leaves a type uncovered: a keyed miss is then answered by a scan, and never
//! by a wrong absence.

use vstd::prelude::*;
use vstd::string::*;

use crate::keys::index_key;
use crate::keys::index_key_of;
use crate::sorted::SortedMap;
use crate::sorted::SortedSet;
use crate::text::same_text;

verus! {

/// A type that the store says is covered, and the key set that covers it.
pub struct CoveredType {
    pub entity_type: String,
    pub key_set: String,
}

/// What the store says of a tenant's coverage.
pub enum CoverageReading<'a> {
    /// There is no journal.
    NoJournal,
    /// The journal keeps no key index that could be trusted.
    Unsupported,
    /// The store could not be read.
    Failed,
    /// The covered types.
    Types(&'a Vec<CoveredType>),
}

/// The key set that covers a type: the first one listed.
pub open spec fn covering(types: Seq<CoveredType>, entity_type: Seq<char>) -> Option<Seq<char>>
    decreases types.len(),
{
    if types.len() == 0 {
        None
    } else if types[0].entity_type@ == entity_type {
        Some(types[0].key_set@)
    } else {
        covering(types.drop_first(), entity_type)
    }
}

/// The key set that covers a type.
pub fn find_covering(types: &Vec<CoveredType>, entity_type: &str) -> (r: Option<String>)
    ensures
        r is Some == covering(types@, entity_type@) is Some,
        r matches Some(s) ==> covering(types@, entity_type@) == Some(s@),
{
    let mut i: usize = 0;
    assert(types@.skip(0) =~= types@);
    while i < types.len()
        invariant
            i <= types@.len(),
            covering(types@, entity_type@) == covering(types@.skip(i as int), entity_type@),
        decreases types@.len() - i,
    {
        assert(types@.skip(i as int)[0] == types@[i as int]);
        assert(types@.skip(i as int).drop_first() =~= types@.skip(i + 1));
        if same_text(types[i].entity_type.as_str(), entity_type) {
            return Some(types[i].key_set.clone());
        }
        i += 1;
    }
    None
}

/// The entries with the listed types in them, later ones over earlier ones.
pub open spec fn with_types(
    entries: Map<Seq<char>, Seq<char>>,
    tenant: Seq<char>,
    types: Seq<CoveredType>,
) -> Map<Seq<char>, Seq<char>>
    decreases types.len(),
{
    if types.len() == 0 {
        entries
    } else {
        with_types(entries, tenant, types.drop_last()).insert(
            index_key_of(tenant, types.last().entity_type@),
            types.last().key_set@,
        )
    }
}

/// The remembered coverage.
pub struct KeyIndexCoverage {
    /// Key sets by tenant and type.
    backfilled: SortedMap<String, String>,
    /// The tenants whose coverage was read once.
    loaded: SortedSet<String>,
}

/// The mathematical content of the remembered coverage.
#[verifier::ext_equal]
pub struct CoverageModel {
    pub entries: Map<Seq<char>, Seq<char>>,
    pub loaded: Set<Seq<char>>,
}

/// The remembered coverage after the store said what covers a type.
pub open spec fn refreshed(
    before: CoverageModel,
    key: Seq<char>,
    covered: Option<Seq<char>>,
) -> CoverageModel {
    CoverageModel {
        entries: match covered {
            Some(key_set) => before.entries.insert(key, key_set),
            None => before.entries.remove(key),
        },
        loaded: before.loaded,
    }
}

/// What is remembered once a watermark was offered to the store.
pub open spec fn marked(
    before: CoverageModel,
    key: Seq<char>,
    key_set: Seq<char>,
    published: Result<bool, String>,
) -> CoverageModel {
    match published {
        Ok(true) => refreshed(before, key, Some(key_set)),
        Ok(false) => refreshed(before, key, None),
        Err(_) => before,
    }
}

/// What is remembered once a tenant's coverage was read. It is read only once.
pub open spec fn loaded_with(
    before: CoverageModel,
    tenant: Seq<char>,
    reading: CoverageReading<'_>,
) -> CoverageModel {
    if before.loaded.contains(tenant) || reading is NoJournal {
        before
    } else {
        CoverageModel {
            entries: match reading {
                CoverageReading::Types(types) => with_types(before.entries, tenant, types@),
                _ => before.entries,
            },
            loaded: before.loaded.insert(tenant),
        }
    }
}

/// What a reading says of a type.
pub open spec fn covered_now(reading: CoverageReading<'_>, entity_type: Seq<char>) -> Option<
    Seq<char>,
> {
    match reading {
        CoverageReading::Types(types) => covering(types@, entity_type),
        _ => None,
    }
}

/// The store keeps coverage, whether or not it could be read.
pub open spec fn is_kept(reading: CoverageReading<'_>) -> bool {
    reading is Types || reading is Failed
}

/// What is remembered once a type's coverage was asked for.
pub open spec fn asked_for(
    before: CoverageModel,
    tenant: Seq<char>,
    entity_type: Seq<char>,
    gated: bool,
    loading: CoverageReading<'_>,
    reading: CoverageReading<'_>,
) -> CoverageModel {
    if gated {
        before
    } else if is_kept(reading) {
        refreshed(
            loaded_with(before, tenant, loading),
            index_key_of(tenant, entity_type),
            covered_now(reading, entity_type),
        )
    } else {
        loaded_with(before, tenant, loading)
    }
}

impl View for KeyIndexCoverage {
    type V = CoverageModel;

    closed spec fn view(&self) -> CoverageModel {
        CoverageModel {
            entries: self.backfilled@.map_values(|s: String| s@),
            loaded: self.loaded@,
        }
    }
}

impl KeyIndexCoverage {
    pub closed spec fn wf(&self) -> bool {
        self.backfilled.wf() && self.loaded.wf()
    }

    /// Nothing is remembered.
    pub fn new() -> (r: KeyIndexCoverage)
        ensures
            r.wf(),
            r@ == (CoverageModel { entries: Map::empty(), loaded: Set::empty() }),
    {
        let r = KeyIndexCoverage { backfilled: SortedMap::new(), loaded: SortedSet::new() };
        assert(r@.entries =~= Map::<Seq<char>, Seq<char>>::empty());
        r
    }

    fn remember(&mut self, key: String, key_set: String)
        requires
            old(self).wf(),
        ensures
            final(self).wf(),
            final(self)@ == (CoverageModel {
                entries: old(self)@.entries.insert(key@, key_set@),
                loaded: old(self)@.loaded,
            }),
    {
        let _ = self.backfilled.insert(key, key_set);
        assert(self@.entries =~= old(self)@.entries.insert(key@, key_set@));
    }

    fn drop_entry(&mut self, key: &String)
        requires
            old(self).wf(),
        ensures
            final(self).wf(),
            final(self)@ == (CoverageModel {
                entries: old(self)@.entries.remove(key@),
                loaded: old(self)@.loaded,
            }),
    {
        let _ = self.backfilled.remove(key);
        assert(self@.entries =~= old(self)@.entries.remove(key@));
    }

    /// What is remembered of a type.
    pub fn remembered(&self, tenant: &str, entity_type: &str) -> (r: Option<String>)
        requires
            self.wf(),
        ensures
            ({
                let key = index_key_of(tenant@, entity_type@);
                &&& r is Some == self@.entries.dom().contains(key)
                &&& r matches Some(s) ==> s@ == self@.entries[key]
            }),
    {
        match self.backfilled.get(&index_key(tenant, entity_type)) {
            Some(s) => Some(s.clone()),
            None => None,
        }
    }

    /// Whether the coverage of a tenant has not been read yet.
    pub fn needs_loading(&self, tenant: &str) -> (r: bool)
        requires
            self.wf(),
        ensures
            r == !self@.loaded.contains(tenant@),
    {
        !self.loaded.contains(&tenant.to_owned())
    }

    /// Takes in a tenant's coverage once. A tenant counts as read even where the
    /// store failed: that leaves its types uncovered, which is safe.
    pub fn ensure_key_index_watermarks_loaded(
        &mut self,
        tenant: &str,
        reading: CoverageReading<'_>,
    )
        requires
            old(self).wf(),
        ensures
            final(self).wf(),
            final(self)@ == loaded_with(old(self)@, tenant@, reading),
    {
        if !self.needs_loading(tenant) {
            return;
        }
        match reading {
            CoverageReading::NoJournal => {
                return;
            },
            CoverageReading::Unsupported => {},
            CoverageReading::Failed => {},
            CoverageReading::Types(types) => {
                let mut i: usize = 0;
                assert(types@.take(0) =~= Seq::<CoveredType>::empty());
                while i < types.len()
                    invariant
                        i <= types@.len(),
                        self.wf(),
                        self@ == (CoverageModel {
                            entries: with_types(
                                old(self)@.entries,
                                tenant@,
                                types@.take(i as int),
                            ),
                            loaded: old(self)@.loaded,
                        }),
                    decreases types@.len() - i,
                {
                    proof {
                        let long = types@.take(i + 1);
                        assert(long.drop_last() =~= types@.take(i as int));
                        assert(long.last() == types@[i as int]);
                    }
                    self.remember(
                        index_key(tenant, types[i].entity_type.as_str()),
                        types[i].key_set.clone(),
                    );
                    i += 1;
                }
                assert(types@.take(i as int) =~= types@);
            },
        }
        let _ = self.loaded.insert(tenant.to_owned());
    }

    /// The key set that covers a type, as the store says now. A gated type is
    /// covered by nothing. What the store says replaces what was remembered, so
    /// that no earlier coverage can come back. `loading` is the reading that
    /// counts where the tenant's coverage was never read.
    pub fn key_index_backfill_covered_key_set(
        &mut self,
        tenant: &str,
        entity_type: &str,
        gated: bool,
        loading: CoverageReading<'_>,
        reading: CoverageReading<'_>,
    ) -> (r: Option<String>)
        requires
            old(self).wf(),
        ensures
            final(self).wf(),
            r is Some == (!gated && covered_now(reading, entity_type@) is Some),
            r matches Some(s) ==> covered_now(reading, entity_type@) == Some(s@),
            final(self)@ == asked_for(
                old(self)@,
                tenant@,
                entity_type@,
                gated,
                loading,
                reading,
            ),
    {
        if gated {
            return None;
        }
        self.ensure_key_index_watermarks_loaded(tenant, loading);
        let key = index_key(tenant, entity_type);
        let covered: Option<String> = match reading {
            CoverageReading::NoJournal => {
                return None;
            },
            CoverageReading::Unsupported => {
                return None;
            },
            CoverageReading::Failed => None,
            CoverageReading::Types(types) => find_covering(types, entity_type),
        };
        match &covered {
            Some(key_set) => {
                self.remember(key, key_set.clone());
            },
            None => {
                self.drop_entry(&key);
            },
        }
        covered
    }

    /// Takes in whether the store took a watermark. Only one that it took is
    /// remembered, and otherwise what was remembered stays.
    pub fn mark_key_index_backfilled(
        &mut self,
        tenant: &str,
        entity_type: &str,
        key_set: &str,
        persisted: bool,
    )
        requires
            old(self).wf(),
        ensures
            final(self).wf(),
            final(self)@ == if persisted {
                refreshed(old(self)@, index_key_of(tenant@, entity_type@), Some(key_set@))
            } else {
                old(self)@
            },
    {
        if persisted {
            self.remember(index_key(tenant, entity_type), key_set.to_owned());
        }
    }

    /// Takes in whether the store took a watermark whose revision had to match.
    /// One that it refused is forgotten; where it failed, nothing changes.
    pub fn mark_key_index_backfilled_if_revision(
        &mut self,
        tenant: &str,
        entity_type: &str,
        key_set: &str,
        published: &Result<bool, String>,
    )
        requires
            old(self).wf(),
        ensures
            final(self).wf(),
            final(self)@ == marked(
                old(self)@,
                index_key_of(tenant@, entity_type@),
                key_set@,
                *published,
            ),
    {
        let key = index_key(tenant, entity_type);
        match published {
            Ok(true) => {
                self.remember(key, key_set.to_owned());
            },
            Ok(false) => {
                self.drop_entry(&key);
            },
            Err(_) => {},
        }
    }

    /// Forgets what is remembered of the types of a tenant.
    pub fn forget_types(&mut self, tenant: &str, types: &Vec<String>)
        requires
            old(self).wf(),
        ensures
            final(self).wf(),
            final(self)@.loaded == old(self)@.loaded,
            final(self)@.entries == old(self)@.entries.remove_keys(
                index_keys_of(tenant@, types@),
            ),
    {
        let mut i: usize = 0;
        assert(self@.entries =~= old(self)@.entries.remove_keys(
            index_keys_of(tenant@, types@.take(0)),
        ));
        while i < types.len()
            invariant
                i <= types@.len(),
                self.wf(),
                self@.loaded == old(self)@.loaded,
                self@.entries == old(self)@.entries.remove_keys(
                    index_keys_of(tenant@, types@.take(i as int)),
                ),
            decreases types@.len() - i,
        {
            let key = index_key(tenant, types[i].as_str());
            self.drop_entry(&key);
            proof {
                let short = types@.take(i as int);
                let long = types@.take(i + 1);
                assert(index_keys_of(tenant@, long) =~= index_keys_of(tenant@, short).insert(
                    key@,
                )) by {
                    assert forall|k: Seq<char>| #[trigger]
                        index_keys_of(tenant@, long).contains(k) <==> index_keys_of(
                            tenant@,
                            short,
                        ).insert(key@).contains(k) by {
                        if index_keys_of(tenant@, long).contains(k) {
                            let j = choose|j: int|
                                0 <= j < long.len() && index_key_of(
                                    tenant@,
                                    (#[trigger] long[j])@,
                                ) == k;
                            if j < i {
                                assert(short[j] == long[j]);
                            }
                        }
                        if index_keys_of(tenant@, short).contains(k) {
                            let j = choose|j: int|
                                0 <= j < short.len() && index_key_of(
                                    tenant@,
                                    (#[trigger] short[j])@,
                                ) == k;
                            assert(long[j] == short[j]);
                        }
                        assert(long[i as int] == types@[i as int]);
                    }
                }
                assert(self@.entries =~= old(self)@.entries.remove_keys(
                    index_keys_of(tenant@, long),
                ));
            }
            i += 1;
        }
        assert(types@.take(i as int) =~= types@);
    }
}

/// The keys under which the types of a tenant are remembered.
pub open spec fn index_keys_of(tenant: Seq<char>, types: Seq<String>) -> Set<Seq<char>> {
    Set::new(
        |k: Seq<char>|
            exists|j: int|
                0 <= j < types.len() && index_key_of(tenant, (#[trigger] types[j])@) == k,
    )
}

/// Whether the key index is complete for a type under its current key set. A
/// keyed answer is trusted only then.
pub fn key_index_backfill_complete(
    coverage: &mut KeyIndexCoverage,
    tenant: &str,
    entity_type: &str,
    current_key_set: &str,
    gated: bool,
    loading: CoverageReading<'_>,
    reading: CoverageReading<'_>,
) -> (r: bool)
    requires
        old(coverage).wf(),
    ensures
        final(coverage).wf(),
        r == (!gated && covered_now(reading, entity_type@) == Some(current_key_set@)),
        final(coverage)@ == if is_kept(reading) {
            asked_for(old(coverage)@, tenant@, entity_type@, gated, loading, reading)
        } else {
            old(coverage)@
        },
{
    match reading {
        CoverageReading::NoJournal => {
            return false;
        },
        CoverageReading::Unsupported => {
            return false;
        },
        _ => {},
    }
    match coverage.key_index_backfill_covered_key_set(
        tenant,
        entity_type,
        gated,
        loading,
        reading,
    ) {
        Some(key_set) => same_text(key_set.as_str(), current_key_set),
        None => false,
    }
}

/// Whatever was remembered before, what the store said last is what is
/// remembered: a withdrawn coverage does not come back.
pub proof fn law_withdrawn_coverage_does_not_come_back(
    before: CoverageModel,
    key: Seq<char>,
    key_set: Seq<char>,
)
    ensures
        !refreshed(refreshed(before, key, Some(key_set)), key, None).entries.dom().contains(key),
        refreshed(before, key, Some(key_set)).entries[key] == key_set,
{
}

/// A type is covered by the first key set that is listed for it, and by none where no
/// one is.
pub proof fn law_types_are_covered_by_what_is_listed(
    types: Seq<CoveredType>,
    entity_type: Seq<char>,
)
    ensures
        covering(types, entity_type) matches Some(key_set) ==> exists|i: int|
            0 <= i < types.len() && (#[trigger] types[i]).entity_type@ == entity_type
                && types[i].key_set@ == key_set && forall|j: int|
                0 <= j < i ==> (#[trigger] types[j]).entity_type@ != entity_type,
        covering(types, entity_type) is None <==> forall|i: int|
            0 <= i < types.len() ==> (#[trigger] types[i]).entity_type@ != entity_type,
    decreases types.len(),
{
    if types.len() > 0 {
        let rest = types.drop_first();
        law_types_are_covered_by_what_is_listed(rest, entity_type);
        assert forall|j: int| 0 <= j < rest.len() implies #[trigger] rest[j] == types[j + 1] by {}
        if types[0].entity_type@ == entity_type {
            assert(types[0].key_set@ == covering(types, entity_type)->0);
        } else if covering(rest, entity_type) is Some {
            let i = choose|i: int|
                0 <= i < rest.len() && (#[trigger] rest[i]).entity_type@ == entity_type
                    && rest[i].key_set@ == covering(rest, entity_type)->0 && forall|j: int|
                    0 <= j < i ==> (#[trigger] rest[j]).entity_type@ != entity_type;
            assert(types[i + 1].entity_type@ == entity_type);
            assert forall|j: int| 0 <= j < i + 1 implies (#[trigger] types[j]).entity_type@
                != entity_type by {
                if j > 0 {
                    assert(rest[j - 1] == types[j]);
                }
            }
        } else {
            assert forall|j: int| 0 <= j < types.len() implies (#[trigger] types[j]).entity_type@
                != entity_type by {
                if j > 0 {
                    assert(rest[j - 1] == types[j]);
                }
            }
        }
    }
}

/// Only a reading that succeeded covers anything, and only what it lists; the store
/// has spoken of a type where it was read or failed, and not where it keeps no index.
pub proof fn law_doubt_leaves_types_uncovered(
    types: Vec<CoveredType>,
    entity_type: Seq<char>,
    key_set: Seq<char>,
)
    ensures
        covered_now(CoverageReading::NoJournal, entity_type) is None,
        covered_now(CoverageReading::Unsupported, entity_type) is None,
        covered_now(CoverageReading::Failed, entity_type) is None,
        covered_now(CoverageReading::Types(&types), entity_type) == Some(key_set) ==> exists|i: int|
            0 <= i < types@.len() && (#[trigger] types@[i]).entity_type@ == entity_type
                && types@[i].key_set@ == key_set,
        covered_now(CoverageReading::Types(&types), entity_type) is None <==> forall|i: int|
            0 <= i < types@.len() ==> (#[trigger] types@[i]).entity_type@ != entity_type,
        !is_kept(CoverageReading::NoJournal),
        !is_kept(CoverageReading::Unsupported),
        is_kept(CoverageReading::Failed),
        is_kept(CoverageReading::Types(&types)),
{
    law_types_are_covered_by_what_is_listed(types@, entity_type);
}

/// What is read of a tenant touches the types that are listed, and nothing else; of
/// two entries for a type the later one counts.
pub proof fn law_readings_touch_only_what_they_list(
    entries: Map<Seq<char>, Seq<char>>,
    tenant: Seq<char>,
    types: Seq<CoveredType>,
    key: Seq<char>,
)
    ensures
        ({
            let after = with_types(entries, tenant, types);
            &&& (forall|i: int|
                0 <= i < types.len() ==> index_key_of(tenant, (#[trigger] types[i]).entity_type@)
                    != key) ==> after.dom().contains(key) == entries.dom().contains(key)
                && after[key] == entries[key]
            &&& forall|i: int|
                0 <= i < types.len() && index_key_of(tenant, (#[trigger] types[i]).entity_type@)
                    == key && (forall|j: int|
                    i < j < types.len() ==> index_key_of(
                        tenant,
                        (#[trigger] types[j]).entity_type@,
                    ) != key) ==> after.dom().contains(key) && after[key] == types[i].key_set@
        }),
    decreases types.len(),
{
    if types.len() > 0 {
        let before = types.drop_last();
        law_readings_touch_only_what_they_list(entries, tenant, before, key);
        assert forall|i: int| 0 <= i < before.len() implies #[trigger] before[i] == types[i] by {}
        let n = types.len() - 1;
        let after = with_types(entries, tenant, types);
        assert(types[n] == types.last());
        if index_key_of(tenant, types[n].entity_type@) != key {
            assert(after[key] == with_types(entries, tenant, before)[key]);
            assert forall|i: int|
                0 <= i < types.len() && index_key_of(tenant, (#[trigger] types[i]).entity_type@)
                    == key && (forall|j: int|
                    i < j < types.len() ==> index_key_of(
                        tenant,
                        (#[trigger] types[j]).entity_type@,
                    ) != key) implies after.dom().contains(key) && after[key] == types[i].key_set@ by {
                assert(before[i] == types[i]);
                assert forall|j: int| i < j < before.len() implies index_key_of(
                    tenant,
                    (#[trigger] before[j]).entity_type@,
                ) != key by {
                    assert(before[j] == types[j]);
                }
            }
            if forall|i: int|
                0 <= i < types.len() ==> index_key_of(tenant, (#[trigger] types[i]).entity_type@)
                    != key {
                assert forall|i: int| 0 <= i < before.len() implies index_key_of(
                    tenant,
                    (#[trigger] before[i]).entity_type@,
                ) != key by {
                    assert(before[i] == types[i]);
                }
            }
        }
    }
}

/// A tenant's coverage is read once: whatever the first reading brought, a second one
/// changes nothing, and only where there is no journal is it still to be read. Other
/// tenants are as they were.
pub proof fn law_tenants_are_read_once(
    before: CoverageModel,
    tenant: Seq<char>,
    other: Seq<char>,
    first: CoverageReading<'_>,
    second: CoverageReading<'_>,
)
    requires
        other != tenant,
    ensures
        ({
            let once = loaded_with(before, tenant, first);
            &&& once.loaded.contains(tenant) == (before.loaded.contains(tenant) || !(first
                is NoJournal))
            &&& once.loaded.contains(other) == before.loaded.contains(other)
            &&& !(first is NoJournal) ==> loaded_with(once, tenant, second) == once
            &&& before.loaded.contains(tenant) ==> once == before
            &&& !(first is Types) ==> once.entries == before.entries
        }),
{
}

/// Once a type was asked for, what is remembered of it is what the store has just said:
/// a covered type with its key set, and an uncovered one not at all. Asking of a gated
/// type changes nothing.
pub proof fn law_asking_remembers_what_the_store_says(
    before: CoverageModel,
    tenant: Seq<char>,
    entity_type: Seq<char>,
    gated: bool,
    loading: CoverageReading<'_>,
    types: Vec<CoveredType>,
)
    ensures
        ({
            let key = index_key_of(tenant, entity_type);
            let listed = covering(types@, entity_type);
            let read = asked_for(
                before,
                tenant,
                entity_type,
                false,
                loading,
                CoverageReading::Types(&types),
            );
            let failed = asked_for(
                before,
                tenant,
                entity_type,
                false,
                loading,
                CoverageReading::Failed,
            );
            &&& read.entries.dom().contains(key) == (listed is Some)
            &&& listed matches Some(key_set) ==> read.entries[key] == key_set
            &&& !failed.entries.dom().contains(key)
            &&& asked_for(
                before,
                tenant,
                entity_type,
                true,
                loading,
                CoverageReading::Types(&types),
            ) == before
        }),
{
}

/// A watermark counts where the store took it, is forgotten where the store refused it,
/// and changes nothing where the store failed. It never speaks for another type.
pub proof fn law_watermarks_count_where_they_were_taken(
    before: CoverageModel,
    key: Seq<char>,
    other: Seq<char>,
    key_set: Seq<char>,
    error: String,
    published: Result<bool, String>,
)
    requires
        other != key,
    ensures
        marked(before, key, key_set, Ok(true)).entries.dom().contains(key),
        marked(before, key, key_set, Ok(true)).entries[key] == key_set,
        !marked(before, key, key_set, Ok(false)).entries.dom().contains(key),
        marked(before, key, key_set, Err(error)) == before,
        marked(before, key, key_set, published).loaded == before.loaded,
        marked(before, key, key_set, published).entries.dom().contains(other)
            == before.entries.dom().contains(other),
        before.entries.dom().contains(other) ==> marked(
            before,
            key,
            key_set,
            published,
        ).entries[other] == before.entries[other],
{
}

} // verus!
