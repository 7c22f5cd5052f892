//! The index of entity ids by tenant and type, for collection queries.

use vstd::prelude::*;
use vstd::string::*;

use crate::keys::index_key;
use crate::keys::index_key_of;
use crate::keys::key_head;
use crate::keys::split_key;
use crate::replay_parity::EntityRef;
use crate::sorted::ascending;
use crate::sorted::lemma_to_set_step;
use crate::sorted::texts;
use crate::sorted::SortedMap;
use crate::sorted::SortedSet;

verus! {

/// The ids of entities under their `{tenant}:{entity_type}` keys.
pub struct EntityIndex {
    buckets: SortedMap<String, SortedSet<String>>,
}

impl View for EntityIndex {
    type V = Map<Seq<char>, Set<Seq<char>>>;

    closed spec fn view(&self) -> Map<Seq<char>, Set<Seq<char>>> {
        self.buckets@.map_values(|s: SortedSet<String>| s@)
    }
}

/// An id is listed under a key.
pub open spec fn lists(
    index: Map<Seq<char>, Set<Seq<char>>>,
    key: Seq<char>,
    id: Seq<char>,
) -> bool {
    index.dom().contains(key) && index[key].contains(id)
}

/// The ids under a key, none where there is no such key.
pub open spec fn bucket(index: Map<Seq<char>, Set<Seq<char>>>, key: Seq<char>) -> Set<Seq<char>> {
    if index.dom().contains(key) {
        index[key]
    } else {
        Set::empty()
    }
}

/// The index with one id more.
pub open spec fn with_id(
    index: Map<Seq<char>, Set<Seq<char>>>,
    key: Seq<char>,
    id: Seq<char>,
) -> Map<Seq<char>, Set<Seq<char>>> {
    index.insert(key, bucket(index, key).insert(id))
}

/// The index without one id; the last id of a type takes its key along.
pub open spec fn without_id(
    index: Map<Seq<char>, Set<Seq<char>>>,
    key: Seq<char>,
    id: Seq<char>,
) -> Map<Seq<char>, Set<Seq<char>>> {
    if !index.dom().contains(key) {
        index
    } else if index[key].remove(id) == Set::<Seq<char>>::empty() {
        index.remove(key)
    } else {
        index.insert(key, index[key].remove(id))
    }
}

/// The sizes of some sets together.
pub open spec fn sizes(sets: Seq<SortedSet<String>>) -> nat
    decreases sets.len(),
{
    if sets.len() == 0 {
        0
    } else {
        sizes(sets.drop_last()) + sets.last()@.len()
    }
}

/// The sizes of those sets together whose key belongs to the tenant.
pub open spec fn tenant_sizes(
    keys: Seq<Seq<char>>,
    sets: Seq<SortedSet<String>>,
    tenant: Seq<char>,
) -> nat
    decreases sets.len(),
{
    if sets.len() == 0 {
        0
    } else {
        tenant_sizes(keys.drop_last(), sets.drop_last(), tenant) + (if key_head(keys.last())
            == Some(tenant) {
            sets.last()@.len()
        } else {
            0
        })
    }
}

/// Some key belongs to the tenant.
pub open spec fn has_tenant(keys: Seq<Seq<char>>, tenant: Seq<char>) -> bool {
    exists|i: int| 0 <= i < keys.len() && key_head(#[trigger] keys[i]) == Some(tenant)
}

impl EntityIndex {
    pub closed spec fn wf(&self) -> bool {
        &&& self.buckets.wf()
        &&& forall|k: Seq<char>| #[trigger]
            self.buckets@.dom().contains(k) ==> self.buckets@[k].wf()
    }

    /// The keys of the index in ascending order.
    pub closed spec fn index_keys(&self) -> Seq<Seq<char>> {
        self.buckets.order()
    }

    /// The id sets in the order of their keys.
    pub closed spec fn id_sets(&self) -> Seq<SortedSet<String>> {
        self.buckets.in_order()
    }

    /// How many ids are listed.
    pub open spec fn total(&self) -> nat {
        sizes(self.id_sets())
    }

    pub proof fn lemma_walk(&self)
        requires
            self.wf(),
        ensures
            self.index_keys().len() == self.id_sets().len(),
            ascending::<String>(self.index_keys()),
            self.index_keys().to_set() == self@.dom(),
            forall|i: int|
                0 <= i < self.index_keys().len() ==> (#[trigger] self.id_sets()[i]).wf(),
            forall|i: int|
                #![trigger self.index_keys()[i]]
                0 <= i < self.index_keys().len() ==> bucket(self@, self.index_keys()[i])
                    == self.id_sets()[i]@,
    {
        self.buckets.lemma_domain();
        assert(self@.dom() =~= self.buckets@.dom());
        assert forall|i: int| 0 <= i < self.index_keys().len() implies (
        #[trigger] self.id_sets()[i]).wf() by {
            assert(self.buckets@.dom().contains(self.buckets.order()[i]));
        }
        assert forall|i: int|
            #![trigger self.index_keys()[i]]
            0 <= i < self.index_keys().len() implies bucket(self@, self.index_keys()[i])
            == self.id_sets()[i]@ by {
            assert(self.buckets@.dom().contains(self.buckets.order()[i]));
        }
    }

    /// An index without ids.
    pub fn new() -> (r: EntityIndex)
        ensures
            r.wf(),
            r@ == Map::<Seq<char>, Set<Seq<char>>>::empty(),
    {
        let r = EntityIndex { buckets: SortedMap::new() };
        assert(r@ =~= Map::<Seq<char>, Set<Seq<char>>>::empty());
        r
    }

    /// Lists an id under a key.
    pub fn insert(&mut self, key: &str, id: &str)
        requires
            old(self).wf(),
        ensures
            final(self).wf(),
            final(self)@ == with_id(old(self)@, key@, id@),
    {
        let owned = key.to_owned();
        let ghost before = self.buckets@;
        let mut ids = match self.buckets.remove(&owned) {
            Some(s) => s,
            None => SortedSet::new(),
        };
        let _ = ids.insert(id.to_owned());
        let _ = self.buckets.insert(owned, ids);
        proof {
            assert(self.buckets@ =~= before.insert(key@, ids));
            assert(self@ =~= with_id(old(self)@, key@, id@));
        }
    }

    /// Lists all the ids under a key, which is there afterwards in any case.
    pub fn insert_all(&mut self, key: &str, new_ids: &Vec<String>)
        requires
            old(self).wf(),
        ensures
            final(self).wf(),
            final(self)@ == old(self)@.insert(
                key@,
                bucket(old(self)@, key@).union(texts(new_ids@).to_set()),
            ),
    {
        let owned = key.to_owned();
        let ghost before = self.buckets@;
        let mut ids = match self.buckets.remove(&owned) {
            Some(s) => s,
            None => SortedSet::new(),
        };
        let more = SortedSet::from_strings(new_ids);
        ids.extend(&more);
        let _ = self.buckets.insert(owned, ids);
        proof {
            assert(self.buckets@ =~= before.insert(key@, ids));
            assert(self@ =~= old(self)@.insert(
                key@,
                bucket(old(self)@, key@).union(texts(new_ids@).to_set()),
            ));
        }
    }

    /// Takes an id out; the last id of a type takes its key along.
    pub fn remove(&mut self, key: &str, id: &str)
        requires
            old(self).wf(),
        ensures
            final(self).wf(),
            final(self)@ == without_id(old(self)@, key@, id@),
    {
        let owned = key.to_owned();
        let ghost before = self.buckets@;
        match self.buckets.remove(&owned) {
            None => {
                assert(self.buckets@ =~= before);
            },
            Some(s) => {
                let mut ids = s;
                let _ = ids.remove(&id.to_owned());
                proof {
                    ids.lemma_members();
                    assert(ids@ == old(self)@[key@].remove(id@));
                    if ids@.len() == 0 {
                        assert(ids@ =~= Set::<Seq<char>>::empty());
                    }
                }
                if ids.len() > 0 {
                    let _ = self.buckets.insert(owned, ids);
                    assert(self.buckets@ =~= before.insert(key@, ids));
                } else {
                    assert(self.buckets@ =~= before.remove(key@));
                }
            },
        }
        assert(self@ =~= without_id(old(self)@, key@, id@));
    }

    /// Whether an id is listed under a key.
    pub fn contains(&self, key: &str, id: &str) -> (r: bool)
        requires
            self.wf(),
        ensures
            r == lists(self@, key@, id@),
    {
        match self.buckets.get(&key.to_owned()) {
            Some(ids) => ids.contains(&id.to_owned()),
            None => false,
        }
    }

    /// The ids under a key, in ascending order.
    pub fn list(&self, key: &str) -> (r: Vec<String>)
        requires
            self.wf(),
        ensures
            ascending::<String>(texts(r@)),
            texts(r@).to_set() == bucket(self@, key@),
    {
        match self.buckets.get(&key.to_owned()) {
            Some(ids) => ids.to_strings(),
            None => {
                let empty: Vec<String> = Vec::new();
                assert(texts(empty@).to_set() =~= Set::<Seq<char>>::empty());
                empty
            },
        }
    }

    /// How many ids are listed.
    pub fn count(&self) -> (r: u64)
        requires
            self.wf(),
            self.total() <= u64::MAX,
        ensures
            r == self.total(),
    {
        let n: usize = self.buckets.len();
        let mut sum: u64 = 0;
        let mut i: usize = 0;
        proof {
            self.lemma_walk();
        }
        while i < n
            invariant
                self.wf(),
                i <= n == self.id_sets().len(),
                n == self.buckets.order().len(),
                self.total() <= u64::MAX,
                sum == sizes(self.id_sets().take(i as int)),
            decreases n - i,
        {
            proof {
                self.lemma_walk();
                lemma_sizes_prefix(self.id_sets(), i + 1);
                assert(self.id_sets().take(i + 1).drop_last() =~= self.id_sets().take(i as int));
                assert(self.id_sets()[i as int].wf()) by {
                    assert(self.index_keys()[i as int] == self.buckets.order()[i as int]);
                }
            }
            let ids = self.buckets.value_at(i);
            sum = sum + ids.len() as u64;
            i += 1;
        }
        assert(self.id_sets().take(n as int) =~= self.id_sets());
        sum
    }

    /// How many ids are listed for each tenant. A key without a colon belongs to
    /// no tenant.
    pub fn counts_by_tenant(&self) -> (r: SortedMap<String, u64>)
        requires
            self.wf(),
            self.total() <= u64::MAX,
        ensures
            r.wf(),
            forall|t: Seq<char>|
                #![trigger r@.dom().contains(t)]
                r@.dom().contains(t) == has_tenant(self.index_keys(), t),
            forall|t: Seq<char>|
                #![trigger r@[t]]
                r@.dom().contains(t) ==> r@[t] == tenant_sizes(
                    self.index_keys(),
                    self.id_sets(),
                    t,
                ),
    {
        let n: usize = self.buckets.len();
        let mut counts: SortedMap<String, u64> = SortedMap::new();
        let mut i: usize = 0;
        proof {
            self.lemma_walk();
        }
        while i < n
            invariant
                self.wf(),
                counts.wf(),
                i <= n == self.id_sets().len(),
                n == self.buckets.order().len(),
                n == self.index_keys().len(),
                self.total() <= u64::MAX,
                forall|t: Seq<char>|
                    #![trigger counts@.dom().contains(t)]
                    counts@.dom().contains(t) == has_tenant(self.index_keys().take(i as int), t),
                forall|t: Seq<char>|
                    #![trigger counts@[t]]
                    counts@.dom().contains(t) ==> counts@[t] == tenant_sizes(
                        self.index_keys().take(i as int),
                        self.id_sets().take(i as int),
                        t,
                    ),
            decreases n - i,
        {
            let ghost keys = self.index_keys().take(i as int);
            let ghost sets = self.id_sets().take(i as int);
            let ghost more_keys = self.index_keys().take(i + 1);
            let ghost more_sets = self.id_sets().take(i + 1);
            let ghost prior = counts@;
            proof {
                self.lemma_walk();
                assert(more_keys.drop_last() =~= keys);
                assert(more_sets.drop_last() =~= sets);
                assert(self.id_sets()[i as int].wf()) by {
                    assert(self.index_keys()[i as int] == self.buckets.order()[i as int]);
                }
                lemma_sizes_prefix(self.id_sets(), i + 1);
            }
            let key: &String = self.buckets.key_at(i);
            let ids = self.buckets.value_at(i);
            match split_key(key.as_str()) {
                Some((tenant, _rest)) => {
                    let owned = tenant.to_owned();
                    let before: u64 = match counts.get(&owned) {
                        Some(c) => *c,
                        None => 0,
                    };
                    proof {
                        lemma_tenant_sizes_bound(keys, sets, tenant@);
                        if !prior.dom().contains(tenant@) {
                            lemma_absent_tenant(keys, sets, tenant@);
                        }
                        assert(before == tenant_sizes(keys, sets, tenant@));
                        assert(sizes(more_sets) == sizes(sets) + ids@.len());
                    }
                    let _ = counts.insert(owned, before + ids.len() as u64);
                    proof {
                        assert(key_head(more_keys[i as int]) == Some(tenant@));
                        assert forall|t: Seq<char>|
                            #![trigger counts@.dom().contains(t)]
                            counts@.dom().contains(t) == has_tenant(more_keys, t) by {
                            lemma_has_tenant_step(self.index_keys(), i as int, t);
                        }
                    }
                },
                None => {
                    proof {
                        assert forall|t: Seq<char>|
                            #![trigger counts@.dom().contains(t)]
                            counts@.dom().contains(t) == has_tenant(more_keys, t) by {
                            lemma_has_tenant_step(self.index_keys(), i as int, t);
                        }
                    }
                },
            }
            i += 1;
        }
        proof {
            assert(self.id_sets().take(n as int) =~= self.id_sets());
            assert(self.index_keys().take(n as int) =~= self.index_keys());
        }
        counts
    }
}

proof fn lemma_sizes_prefix(sets: Seq<SortedSet<String>>, i: int)
    requires
        0 <= i <= sets.len(),
    ensures
        sizes(sets.take(i)) <= sizes(sets),
    decreases sets.len() - i,
{
    if i == sets.len() {
        assert(sets.take(i) =~= sets);
    } else {
        lemma_sizes_prefix(sets, i + 1);
        assert(sets.take(i + 1).drop_last() =~= sets.take(i));
    }
}

proof fn lemma_tenant_sizes_bound(
    keys: Seq<Seq<char>>,
    sets: Seq<SortedSet<String>>,
    tenant: Seq<char>,
)
    ensures
        tenant_sizes(keys, sets, tenant) <= sizes(sets),
    decreases sets.len(),
{
    if sets.len() > 0 {
        lemma_tenant_sizes_bound(keys.drop_last(), sets.drop_last(), tenant);
    }
}

proof fn lemma_absent_tenant(
    keys: Seq<Seq<char>>,
    sets: Seq<SortedSet<String>>,
    tenant: Seq<char>,
)
    requires
        keys.len() == sets.len(),
        !has_tenant(keys, tenant),
    ensures
        tenant_sizes(keys, sets, tenant) == 0,
    decreases sets.len(),
{
    if sets.len() > 0 {
        assert(key_head(keys[keys.len() - 1]) != Some(tenant));
        assert(!has_tenant(keys.drop_last(), tenant)) by {
            if has_tenant(keys.drop_last(), tenant) {
                let i = choose|i: int|
                    0 <= i < keys.drop_last().len() && key_head(#[trigger] keys.drop_last()[i])
                        == Some(tenant);
                assert(key_head(keys[i]) == Some(tenant));
            }
        }
        lemma_absent_tenant(keys.drop_last(), sets.drop_last(), tenant);
    }
}

proof fn lemma_has_tenant_step(keys: Seq<Seq<char>>, i: int, t: Seq<char>)
    requires
        0 <= i < keys.len(),
    ensures
        has_tenant(keys.take(i + 1), t) == (has_tenant(keys.take(i), t) || key_head(keys[i])
            == Some(t)),
{
    let a = keys.take(i);
    let b = keys.take(i + 1);
    if has_tenant(a, t) {
        let j = choose|j: int| 0 <= j < a.len() && key_head(#[trigger] a[j]) == Some(t);
        assert(key_head(b[j]) == Some(t));
    }
    if has_tenant(b, t) {
        let j = choose|j: int| 0 <= j < b.len() && key_head(#[trigger] b[j]) == Some(t);
        if j < i {
            assert(key_head(a[j]) == Some(t));
        }
    }
    assert(b[i] == keys[i]);
}

// ---------------------------------------------------------------------------
// Laws of the index
// ---------------------------------------------------------------------------

/// Taking an id out of an index that did not list it before it was put in gives
/// the index back, unless its key was there without ids.
pub proof fn law_unlisting_undoes_listing(
    index: Map<Seq<char>, Set<Seq<char>>>,
    key: Seq<char>,
    id: Seq<char>,
)
    requires
        !lists(index, key, id),
        index.dom().contains(key) ==> index[key] != Set::<Seq<char>>::empty(),
    ensures
        without_id(with_id(index, key, id), key, id) == index,
{
    let after = with_id(index, key, id);
    assert(after[key].remove(id) =~= bucket(index, key));
    assert(without_id(after, key, id) =~= index);
}

/// Listing or unlisting an id leaves every other key alone, and every other id
/// under its key.
pub proof fn law_other_entities_stay_listed(
    index: Map<Seq<char>, Set<Seq<char>>>,
    key: Seq<char>,
    id: Seq<char>,
    other_key: Seq<char>,
    other_id: Seq<char>,
)
    requires
        other_key != key || other_id != id,
    ensures
        lists(with_id(index, key, id), other_key, other_id) == lists(index, other_key, other_id),
        lists(without_id(index, key, id), other_key, other_id) == lists(index, other_key, other_id),
        lists(with_id(index, key, id), key, id),
        !lists(without_id(index, key, id), key, id),
{
    if index.dom().contains(key) && index[key].remove(id) == Set::<Seq<char>>::empty() {
        assert(!index[key].remove(id).contains(other_id));
    }
}

/// The last id of a type leaves no empty key behind.
pub proof fn law_no_empty_key_stays(
    index: Map<Seq<char>, Set<Seq<char>>>,
    key: Seq<char>,
    id: Seq<char>,
)
    ensures
        without_id(index, key, id).dom().contains(key) ==> without_id(index, key, id)[key] != Set::<
            Seq<char>,
        >::empty(),
{
}

// ---------------------------------------------------------------------------
// Hydration
// ---------------------------------------------------------------------------

/// The index with the entities of a scan.
pub open spec fn with_entities(
    index: Map<Seq<char>, Set<Seq<char>>>,
    tenant: Seq<char>,
    entities: Seq<EntityRef>,
) -> Map<Seq<char>, Set<Seq<char>>>
    decreases entities.len(),
{
    if entities.len() == 0 {
        index
    } else {
        with_id(
            with_entities(index, tenant, entities.drop_last()),
            index_key_of(tenant, entities.last().entity_type@),
            entities.last().entity_id@,
        )
    }
}

/// The keys of the types that a scan saw.
pub open spec fn scanned_keys(tenant: Seq<char>, entities: Seq<EntityRef>) -> Set<Seq<char>> {
    entities.map_values(|e: EntityRef| index_key_of(tenant, e.entity_type@)).to_set()
}

/// The index together with the types whose ids are known to be complete.
pub struct CollectionIndex {
    pub index: EntityIndex,
    pub hydrated: SortedSet<String>,
}

/// What a listing has to do.
pub enum ListPlan {
    /// These are the ids.
    Serve(Vec<String>),
    /// The store has to be scanned for the type first.
    Scan,
}

impl CollectionIndex {
    pub open spec fn wf(&self) -> bool {
        self.index.wf() && self.hydrated.wf()
    }

    /// Nothing indexed, nothing known to be complete.
    pub fn new() -> (r: CollectionIndex)
        ensures
            r.wf(),
            r.index@ == Map::<Seq<char>, Set<Seq<char>>>::empty(),
            r.hydrated@ == Set::<Seq<char>>::empty(),
    {
        CollectionIndex { index: EntityIndex::new(), hydrated: SortedSet::new() }
    }

    /// Marks every type that a scan saw as complete.
    pub fn mark_types_hydrated(&mut self, tenant: &str, entities: &Vec<EntityRef>)
        requires
            old(self).wf(),
        ensures
            final(self).wf(),
            final(self).index == old(self).index,
            final(self).hydrated@ == old(self).hydrated@.union(scanned_keys(tenant@, entities@)),
    {
        let ghost keys = entities@.map_values(
            |e: EntityRef| index_key_of(tenant@, e.entity_type@),
        );
        let mut i: usize = 0;
        assert(self.hydrated@ =~= old(self).hydrated@.union(keys.take(0).to_set()));
        while i < entities.len()
            invariant
                i <= entities@.len(),
                keys == entities@.map_values(
                    |e: EntityRef| index_key_of(tenant@, e.entity_type@),
                ),
                self.wf(),
                self.index == old(self).index,
                self.hydrated@ == old(self).hydrated@.union(keys.take(i as int).to_set()),
            decreases entities@.len() - i,
        {
            let _ = self.hydrated.insert(index_key(tenant, entities[i].entity_type.as_str()));
            proof {
                lemma_to_set_step(keys, i as int);
                assert(self.hydrated@ =~= old(self).hydrated@.union(keys.take(i + 1).to_set()));
            }
            i += 1;
        }
        assert(keys.take(entities@.len() as int) =~= keys);
    }

    /// Takes in a scan of the whole store for a tenant.
    pub fn populate_index_from_store(&mut self, tenant: &str, entities: &Vec<EntityRef>)
        requires
            old(self).wf(),
        ensures
            final(self).wf(),
            final(self).index@ == with_entities(old(self).index@, tenant@, entities@),
            final(self).hydrated@ == old(self).hydrated@.union(scanned_keys(tenant@, entities@)),
    {
        let mut i: usize = 0;
        while i < entities.len()
            invariant
                i <= entities@.len(),
                self.wf(),
                self.hydrated == old(self).hydrated,
                self.index@ == with_entities(old(self).index@, tenant@, entities@.take(i as int)),
            decreases entities@.len() - i,
        {
            let key = index_key(tenant, entities[i].entity_type.as_str());
            self.index.insert(key.as_str(), entities[i].entity_id.as_str());
            assert(entities@.take(i + 1).drop_last() =~= entities@.take(i as int));
            i += 1;
        }
        assert(entities@.take(entities@.len() as int) =~= entities@);
        self.mark_types_hydrated(tenant, entities);
    }

    /// Takes in a scan of the store for one type, and says how many ids it saw.
    pub fn populate_index_from_store_by_type(
        &mut self,
        tenant: &str,
        entity_type: &str,
        ids: &Vec<String>,
    ) -> (r: usize)
        requires
            old(self).wf(),
        ensures
            final(self).wf(),
            r == ids@.len(),
            ({
                let key = index_key_of(tenant@, entity_type@);
                &&& final(self).index@ == old(self).index@.insert(
                    key,
                    bucket(old(self).index@, key).union(texts(ids@).to_set()),
                )
                &&& final(self).hydrated@ == old(self).hydrated@.insert(key)
            }),
    {
        let key = index_key(tenant, entity_type);
        self.index.insert_all(key.as_str(), ids);
        let _ = self.hydrated.insert(key);
        ids.len()
    }

    /// The ids of a type, in ascending order.
    pub fn list_entity_ids(&self, tenant: &str, entity_type: &str) -> (r: Vec<String>)
        requires
            self.wf(),
        ensures
            ascending::<String>(texts(r@)),
            texts(r@).to_set() == bucket(self.index@, index_key_of(tenant@, entity_type@)),
    {
        let key = index_key(tenant, entity_type);
        self.index.list(key.as_str())
    }

    /// Whether an entity is listed.
    pub fn entity_exists(&self, tenant: &str, entity_type: &str, entity_id: &str) -> (r: bool)
        requires
            self.wf(),
        ensures
            r == lists(self.index@, index_key_of(tenant@, entity_type@), entity_id@),
    {
        let key = index_key(tenant, entity_type);
        self.index.contains(key.as_str(), entity_id)
    }

    /// Lists a type only where its ids are known to be complete, or where there
    /// is no store to ask. A type with some ids is not complete on that account.
    pub fn plan_listing(&self, tenant: &str, entity_type: &str, has_journal: bool) -> (r: ListPlan)
        requires
            self.wf(),
        ensures
            ({
                let key = index_key_of(tenant@, entity_type@);
                &&& r is Scan == (has_journal && !self.hydrated@.contains(key))
                &&& r matches ListPlan::Serve(ids) ==> ascending::<String>(texts(ids@)) && texts(
                    ids@,
                ).to_set() == bucket(self.index@, key)
            }),
    {
        let key = index_key(tenant, entity_type);
        if !self.hydrated.contains(&key) && has_journal {
            return ListPlan::Scan;
        }
        ListPlan::Serve(self.list_entity_ids(tenant, entity_type))
    }
}

proof fn lemma_with_entities(
    index: Map<Seq<char>, Set<Seq<char>>>,
    tenant: Seq<char>,
    entities: Seq<EntityRef>,
    i: int,
)
    requires
        0 <= i < entities.len(),
    ensures
        lists(
            with_entities(index, tenant, entities),
            index_key_of(tenant, entities[i].entity_type@),
            entities[i].entity_id@,
        ),
    decreases entities.len(),
{
    let front = entities.drop_last();
    if i < entities.len() - 1 {
        lemma_with_entities(index, tenant, front, i);
    }
}

/// After a scan of the store, every entity that the scan saw is listed, and its
/// type is served from the index.
pub proof fn law_scans_hide_no_entity(
    index: Map<Seq<char>, Set<Seq<char>>>,
    hydrated: Set<Seq<char>>,
    tenant: Seq<char>,
    entities: Seq<EntityRef>,
    i: int,
)
    requires
        0 <= i < entities.len(),
    ensures
        ({
            let key = index_key_of(tenant, entities[i].entity_type@);
            &&& bucket(with_entities(index, tenant, entities), key).contains(
                entities[i].entity_id@,
            )
            &&& hydrated.union(scanned_keys(tenant, entities)).contains(key)
        }),
{
    lemma_with_entities(index, tenant, entities, i);
    let keys = entities.map_values(|e: EntityRef| index_key_of(tenant, e.entity_type@));
    assert(keys[i] == index_key_of(tenant, entities[i].entity_type@));
    assert(keys.to_set().contains(keys[i]));
}

/// A scan lists nothing that it did not see: what is listed after it was listed before, or
/// is an entity of the scan.
pub proof fn law_scans_invent_no_entity(
    index: Map<Seq<char>, Set<Seq<char>>>,
    tenant: Seq<char>,
    entities: Seq<EntityRef>,
    key: Seq<char>,
    id: Seq<char>,
)
    ensures
        lists(with_entities(index, tenant, entities), key, id) <==> lists(index, key, id) || exists|
            i: int,
        |
            0 <= i < entities.len() && index_key_of(tenant, (#[trigger] entities[i]).entity_type@)
                == key && entities[i].entity_id@ == id,
    decreases entities.len(),
{
    if entities.len() > 0 {
        let before = entities.drop_last();
        let n = entities.len() - 1;
        let last = entities[n];
        law_scans_invent_no_entity(index, tenant, before, key, id);
        let front = with_entities(index, tenant, before);
        let last_key = index_key_of(tenant, last.entity_type@);
        if last_key != key || last.entity_id@ != id {
            law_other_entities_stay_listed(front, last_key, last.entity_id@, key, id);
        } else {
            lemma_with_entities(index, tenant, entities, n);
        }
        if exists|i: int|
            0 <= i < before.len() && index_key_of(tenant, (#[trigger] before[i]).entity_type@)
                == key && before[i].entity_id@ == id {
            let i = choose|i: int|
                0 <= i < before.len() && index_key_of(tenant, (#[trigger] before[i]).entity_type@)
                    == key && before[i].entity_id@ == id;
            assert(entities[i] == before[i]);
        }
        if exists|i: int|
            0 <= i < entities.len() && index_key_of(tenant, (#[trigger] entities[i]).entity_type@)
                == key && entities[i].entity_id@ == id {
            let i = choose|i: int|
                0 <= i < entities.len() && index_key_of(
                    tenant,
                    (#[trigger] entities[i]).entity_type@,
                ) == key && entities[i].entity_id@ == id;
            if i < n {
                assert(before[i] == entities[i]);
            }
        }
    }
}

/// Only the types that a scan saw count as complete on its account.
pub proof fn law_unseen_types_are_not_complete(
    tenant: Seq<char>,
    entities: Seq<EntityRef>,
    key: Seq<char>,
)
    ensures
        scanned_keys(tenant, entities).contains(key) <==> exists|i: int|
            0 <= i < entities.len() && index_key_of(tenant, (#[trigger] entities[i]).entity_type@)
                == key,
{
    let keys = entities.map_values(|e: EntityRef| index_key_of(tenant, e.entity_type@));
    if keys.contains(key) {
        let i = choose|i: int| 0 <= i < keys.len() && keys[i] == key;
        assert(index_key_of(tenant, entities[i].entity_type@) == key);
    }
    if exists|i: int|
        0 <= i < entities.len() && index_key_of(tenant, (#[trigger] entities[i]).entity_type@)
            == key {
        let i = choose|i: int|
            0 <= i < entities.len() && index_key_of(tenant, (#[trigger] entities[i]).entity_type@)
                == key;
        assert(keys[i] == key);
    }
}

/// What stands under a key is what is listed under it.
pub proof fn law_buckets_hold_what_is_listed(
    index: Map<Seq<char>, Set<Seq<char>>>,
    key: Seq<char>,
    id: Seq<char>,
)
    ensures
        bucket(index, key).contains(id) == lists(index, key, id),
        index.dom().contains(key) ==> bucket(index, key) == index[key],
{
}

/// The ids of a tenant are those under its keys: keys of other tenants add nothing, and
/// where all keys are its own, all ids are.
pub proof fn law_tenants_are_counted_by_their_keys(
    keys: Seq<Seq<char>>,
    sets: Seq<SortedSet<String>>,
    tenant: Seq<char>,
)
    requires
        keys.len() == sets.len(),
    ensures
        tenant_sizes(keys, sets, tenant) <= sizes(sets),
        (forall|i: int| 0 <= i < keys.len() ==> key_head(#[trigger] keys[i]) == Some(tenant))
            ==> tenant_sizes(keys, sets, tenant) == sizes(sets),
        (forall|i: int| 0 <= i < keys.len() ==> key_head(#[trigger] keys[i]) != Some(tenant))
            ==> tenant_sizes(keys, sets, tenant) == 0,
        forall|i: int|
            0 <= i < sets.len() ==> (#[trigger] sets[i])@.len() <= sizes(sets),
        sets.len() == 1 ==> sizes(sets) == sets[0]@.len(),
    decreases sets.len(),
{
    if sets.len() > 0 {
        let k = keys.drop_last();
        let s = sets.drop_last();
        let n = sets.len() - 1;
        law_tenants_are_counted_by_their_keys(k, s, tenant);
        assert forall|i: int| 0 <= i < n implies #[trigger] k[i] == keys[i] by {}
        assert(keys[n] == keys.last());
        if sets.len() == 1 {
            assert(sizes(s) == 0);
        }
        if forall|i: int| 0 <= i < keys.len() ==> key_head(#[trigger] keys[i]) == Some(tenant) {
            assert forall|i: int| 0 <= i < k.len() implies key_head(#[trigger] k[i]) == Some(
                tenant,
            ) by {
                assert(keys[i] == k[i]);
            }
        }
        if forall|i: int| 0 <= i < keys.len() ==> key_head(#[trigger] keys[i]) != Some(tenant) {
            assert forall|i: int| 0 <= i < k.len() implies key_head(#[trigger] k[i]) != Some(
                tenant,
            ) by {
                assert(keys[i] == k[i]);
            }
        }
        assert forall|i: int| 0 <= i < sets.len() implies (#[trigger] sets[i])@.len() <= sizes(
            sets,
        ) by {
            if i < n {
                assert(s[i] == sets[i]);
            }
        }
    }
}

} // verus!
