//! The bookkeeping of live actors, and the only place that creates or destroys
//! it.
//!
//! Three maps have to agree about every live actor: the registry that a request
//! asks through, the entity index that collection queries read, and the access
//! stamps that passivation reads. Each operation changes all three at once.

use vstd::prelude::*;
use vstd::string::*;

use crate::entity_index::law_other_entities_stay_listed;
use crate::entity_index::lists;
use crate::entity_index::with_id;
use crate::entity_index::without_id;
use crate::entity_index::CollectionIndex;
use crate::keys::actor_key;
use crate::keys::actor_key_of;
use crate::keys::index_key;
use crate::keys::index_key_of;
use crate::sorted::SortedMap;
use crate::timestamps::Timestamp;

verus! {

/// Where a registration also lists the entity for collection queries.
#[derive(Clone, Copy)]
pub struct IndexedAs<'a> {
    /// The `{tenant}:{entity_type}` key.
    pub index_key: &'a str,
    /// The id under it.
    pub entity_id: &'a str,
}

/// Why an actor failed to initialize.
#[derive(Clone, Copy, PartialEq, Eq, Structural, Debug)]
pub enum InitFailureKind {
    /// The store refused the entity's first event.
    Constraint,
    /// Something that the actor depends on was not there.
    TransientDependency,
    /// The actor itself is at fault.
    Defect,
}

/// The live actors by key, each with the identity of its incarnation.
pub struct ActorDirectory {
    pub registry: SortedMap<String, u128>,
    pub collection: CollectionIndex,
    pub last_accessed: SortedMap<String, Timestamp>,
}

/// The mathematical content of a directory.
#[verifier::ext_equal]
pub struct DirectoryModel {
    pub registry: Map<Seq<char>, u128>,
    pub index: Map<Seq<char>, Set<Seq<char>>>,
    pub hydrated: Set<Seq<char>>,
    pub stamps: Map<Seq<char>, Timestamp>,
}

impl View for ActorDirectory {
    type V = DirectoryModel;

    open spec fn view(&self) -> DirectoryModel {
        DirectoryModel {
            registry: self.registry@,
            index: self.collection.index@,
            hydrated: self.collection.hydrated@,
            stamps: self.last_accessed@,
        }
    }
}

/// Where an optional unlisting stands.
pub open spec fn unlisted(
    index: Map<Seq<char>, Set<Seq<char>>>,
    unlist: Option<IndexedAs<'_>>,
) -> Map<Seq<char>, Set<Seq<char>>> {
    match unlist {
        Some(at) => without_id(index, at.index_key@, at.entity_id@),
        None => index,
    }
}

/// The directory without whatever is registered under a key.
pub open spec fn evicted(
    d: DirectoryModel,
    key: Seq<char>,
    unlist: Option<IndexedAs<'_>>,
) -> DirectoryModel {
    DirectoryModel {
        registry: d.registry.remove(key),
        index: unlisted(d.index, unlist),
        hydrated: d.hydrated,
        stamps: d.stamps.remove(key),
    }
}

/// The directory with a new actor.
pub open spec fn registered(
    d: DirectoryModel,
    key: Seq<char>,
    at: IndexedAs<'_>,
    uid: u128,
    now: Timestamp,
) -> DirectoryModel {
    DirectoryModel {
        registry: d.registry.insert(key, uid),
        index: with_id(d.index, at.index_key@, at.entity_id@),
        hydrated: d.hydrated,
        stamps: d.stamps.insert(key, now),
    }
}

/// The directory with an actor's access stamped.
pub open spec fn stamped(d: DirectoryModel, key: Seq<char>, now: Timestamp) -> DirectoryModel {
    DirectoryModel { stamps: d.stamps.insert(key, now), ..d }
}

/// An incarnation is the one registered under a key.
pub open spec fn is_current(d: DirectoryModel, key: Seq<char>, uid: u128) -> bool {
    d.registry.dom().contains(key) && d.registry[key] == uid
}

impl ActorDirectory {
    /// Every registered actor has an access stamp, so that it can be passivated.
    pub open spec fn wf(&self) -> bool {
        &&& self.registry.wf()
        &&& self.collection.wf()
        &&& self.last_accessed.wf()
        &&& self.registry@.dom().subset_of(self.last_accessed@.dom())
    }

    /// A directory without actors.
    pub fn new() -> (r: ActorDirectory)
        ensures
            r.wf(),
            r@ == (DirectoryModel {
                registry: Map::empty(),
                index: Map::empty(),
                hydrated: Set::empty(),
                stamps: Map::empty(),
            }),
    {
        ActorDirectory {
            registry: SortedMap::new(),
            collection: CollectionIndex::new(),
            last_accessed: SortedMap::new(),
        }
    }

    /// Registers the actor that `spawn` makes, unless one is registered already.
    /// Gives the live actor, and whether this call spawned it.
    pub fn get_or_register<F: FnOnce() -> u128>(
        &mut self,
        key: &str,
        indexed_as: IndexedAs<'_>,
        now: Timestamp,
        spawn: F,
    ) -> (r: (u128, bool))
        requires
            old(self).wf(),
            spawn.requires(()),
        ensures
            final(self).wf(),
            r.1 == !old(self)@.registry.dom().contains(key@),
            !r.1 ==> r.0 == old(self)@.registry[key@] && final(self)@ == stamped(
                old(self)@,
                key@,
                now,
            ),
            r.1 ==> spawn.ensures((), r.0) && final(self)@ == registered(
                old(self)@,
                key@,
                indexed_as,
                r.0,
                now,
            ),
    {
        let owned = key.to_owned();
        match self.registry.get(&owned) {
            Some(uid) => {
                let existing: u128 = *uid;
                let _ = self.last_accessed.insert(owned, now);
                return (existing, false);
            },
            None => {},
        }
        let uid: u128 = spawn();
        let _ = self.registry.insert(owned.clone(), uid);
        let _ = self.last_accessed.insert(owned, now);
        self.collection.index.insert(indexed_as.index_key, indexed_as.entity_id);
        (uid, true)
    }

    /// Removes whatever is registered under a key.
    fn evict(&mut self, key: &String, unlist: Option<IndexedAs<'_>>) -> (r: Option<u128>)
        requires
            old(self).wf(),
        ensures
            final(self).wf(),
            final(self)@ == evicted(old(self)@, key@, unlist),
            r is Some == old(self)@.registry.dom().contains(key@),
            r matches Some(uid) ==> uid == old(self)@.registry[key@],
    {
        let removed = self.registry.remove(key);
        let _ = self.last_accessed.remove(key);
        match unlist {
            Some(at) => {
                self.collection.index.remove(at.index_key, at.entity_id);
            },
            None => {},
        }
        removed
    }

    /// Removes one incarnation, or touches nothing if another one is registered.
    ///
    /// `unlist` also takes the entity out of the index. It is given only where
    /// the entity provably does not exist: an actor that merely died says
    /// nothing about its entity.
    pub fn unregister(
        &mut self,
        key: &str,
        incarnation: u128,
        unlist: Option<IndexedAs<'_>>,
    ) -> (r: bool)
        requires
            old(self).wf(),
        ensures
            final(self).wf(),
            r == is_current(old(self)@, key@, incarnation),
            !r ==> *final(self) == *old(self),
            r ==> final(self)@ == evicted(old(self)@, key@, unlist),
    {
        let owned = key.to_owned();
        let current: bool = match self.registry.get(&owned) {
            Some(uid) => *uid == incarnation,
            None => false,
        };
        if !current {
            return false;
        }
        let _ = self.evict(&owned, unlist);
        true
    }

    /// Removes whichever incarnation serves the key, and hands it back so that
    /// it can be stopped.
    pub fn unregister_any(&mut self, key: &str, unlist: IndexedAs<'_>) -> (r: Option<u128>)
        requires
            old(self).wf(),
        ensures
            final(self).wf(),
            final(self)@ == evicted(old(self)@, key@, Some(unlist)),
            r is Some == old(self)@.registry.dom().contains(key@),
            r matches Some(uid) ==> uid == old(self)@.registry[key@],
    {
        self.evict(&key.to_owned(), Some(unlist))
    }

    /// Retracts the spawn of an actor that never initialized, and says whether
    /// anything was retracted.
    ///
    /// Only a constraint proves that the entity does not exist; every other
    /// failure may belong to one that exists and merely could not be read.
    pub fn retract_failed_init(
        &mut self,
        tenant: &str,
        entity_type: &str,
        entity_id: &str,
        failed: u128,
        kind: Option<InitFailureKind>,
    ) -> (r: bool)
        requires
            old(self).wf(),
        ensures
            final(self).wf(),
            ({
                let key = actor_key_of(tenant@, entity_type@, entity_id@);
                let index = index_key_of(tenant@, entity_type@);
                &&& r == (kind is Some && is_current(old(self)@, key, failed))
                &&& !r ==> *final(self) == *old(self)
                &&& r ==> final(self)@ == (DirectoryModel {
                    registry: old(self)@.registry.remove(key),
                    stamps: old(self)@.stamps.remove(key),
                    index: if kind == Some(InitFailureKind::Constraint) {
                        without_id(old(self)@.index, index, entity_id@)
                    } else {
                        old(self)@.index
                    },
                    hydrated: old(self)@.hydrated,
                })
            }),
    {
        let reason = match kind {
            Some(k) => k,
            None => {
                return false;
            },
        };
        let key = actor_key(tenant, entity_type, entity_id);
        let index = index_key(tenant, entity_type);
        if reason == InitFailureKind::Constraint {
            self.unregister(
                key.as_str(),
                failed,
                Some(IndexedAs { index_key: index.as_str(), entity_id }),
            )
        } else {
            self.unregister(key.as_str(), failed, None)
        }
    }

    /// Stamps an access.
    pub fn stamp_access(&mut self, key: &str, now: Timestamp)
        requires
            old(self).wf(),
        ensures
            final(self).wf(),
            final(self)@ == stamped(old(self)@, key@, now),
    {
        let _ = self.last_accessed.insert(key.to_owned(), now);
    }

    /// Removes an entity whose incarnation is as expected: `Some` expects that
    /// one to be registered, `None` expects none.
    pub fn remove_entity_actor_incarnation_if_current(
        &mut self,
        tenant: &str,
        entity_type: &str,
        entity_id: &str,
        expected: Option<u128>,
        remove_from_entity_index: bool,
    ) -> (r: bool)
        requires
            old(self).wf(),
        ensures
            final(self).wf(),
            ({
                let key = actor_key_of(tenant@, entity_type@, entity_id@);
                let index = index_key_of(tenant@, entity_type@);
                &&& r == (match expected {
                    Some(uid) => is_current(old(self)@, key, uid),
                    None => !old(self)@.registry.dom().contains(key),
                })
                &&& !r ==> *final(self) == *old(self)
                &&& r ==> final(self)@ == (DirectoryModel {
                    registry: old(self)@.registry.remove(key),
                    stamps: old(self)@.stamps.remove(key),
                    index: if remove_from_entity_index {
                        without_id(old(self)@.index, index, entity_id@)
                    } else {
                        old(self)@.index
                    },
                    hydrated: old(self)@.hydrated,
                })
            }),
    {
        let key = actor_key(tenant, entity_type, entity_id);
        let index = index_key(tenant, entity_type);
        let matches_expected: bool = match self.registry.get(&key) {
            Some(current) => match expected {
                Some(uid) => *current == uid,
                None => false,
            },
            None => expected.is_none(),
        };
        if !matches_expected {
            return false;
        }
        if remove_from_entity_index {
            let _ = self.evict(&key, Some(IndexedAs { index_key: index.as_str(), entity_id }));
        } else {
            let _ = self.evict(&key, None);
        }
        true
    }

    /// Removes an entity, whatever serves it.
    pub fn remove_entity(&mut self, tenant: &str, entity_type: &str, entity_id: &str) -> (r: Option<
        u128,
    >)
        requires
            old(self).wf(),
        ensures
            final(self).wf(),
            ({
                let key = actor_key_of(tenant@, entity_type@, entity_id@);
                let index = index_key_of(tenant@, entity_type@);
                &&& final(self)@ == (DirectoryModel {
                    registry: old(self)@.registry.remove(key),
                    stamps: old(self)@.stamps.remove(key),
                    index: without_id(old(self)@.index, index, entity_id@),
                    hydrated: old(self)@.hydrated,
                })
                &&& r is Some == old(self)@.registry.dom().contains(key)
                &&& r matches Some(uid) ==> uid == old(self)@.registry[key]
                &&& !lists(final(self)@.index, index, entity_id@)
            }),
    {
        let key = actor_key(tenant, entity_type, entity_id);
        let index = index_key(tenant, entity_type);
        self.unregister_any(
            key.as_str(),
            IndexedAs { index_key: index.as_str(), entity_id },
        )
    }

    /// How many actors are live.
    pub fn active_actor_count(&self) -> (r: u64)
        requires
            self.wf(),
        ensures
            r == self@.registry.dom().len(),
    {
        self.registry.len() as u64
    }

    /// How many entities are listed.
    pub fn active_entity_count(&self) -> (r: u64)
        requires
            self.wf(),
            self.collection.index.total() <= u64::MAX,
        ensures
            r == self.collection.index.total(),
    {
        self.collection.index.count()
    }
}

// ---------------------------------------------------------------------------
// Laws
// ---------------------------------------------------------------------------

/// A registration publishes the actor, the listing and the stamp together.
pub proof fn law_registration_publishes_everything(
    d: DirectoryModel,
    key: Seq<char>,
    at: IndexedAs<'_>,
    uid: u128,
    now: Timestamp,
)
    ensures
        is_current(registered(d, key, at, uid, now), key, uid),
        lists(registered(d, key, at, uid, now).index, at.index_key@, at.entity_id@),
        registered(d, key, at, uid, now).stamps.dom().contains(key),
{
}

/// An eviction takes the actor, the stamp and the listing together, and
/// touches nothing that belongs to another key.
pub proof fn law_eviction_takes_everything(
    d: DirectoryModel,
    key: Seq<char>,
    at: IndexedAs<'_>,
    other: Seq<char>,
)
    requires
        other != key,
    ensures
        ({
            let after = evicted(d, key, Some(at));
            &&& !after.registry.dom().contains(key)
            &&& !after.stamps.dom().contains(key)
            &&& !lists(after.index, at.index_key@, at.entity_id@)
            &&& after.registry.dom().contains(other) == d.registry.dom().contains(other)
            &&& after.registry.dom().contains(other) ==> after.registry[other] == d.registry[other]
            &&& after.stamps.dom().contains(other) == d.stamps.dom().contains(other)
        }),
{
}

/// A cleanup that is meant for a dead incarnation never finds its successor: once
/// another incarnation is registered under the key, the dead one is not current.
pub proof fn law_stale_cleanup_finds_nothing(
    d: DirectoryModel,
    key: Seq<char>,
    at: IndexedAs<'_>,
    dead: u128,
    successor: u128,
    now: Timestamp,
)
    requires
        dead != successor,
    ensures
        !is_current(registered(evicted(d, key, None), key, at, successor, now), key, dead),
        is_current(registered(evicted(d, key, None), key, at, successor, now), key, successor),
{
}

/// Evicting a fresh registration gives back the directory from before it,
/// where the key was free and unstamped and the entity was not listed.
pub proof fn law_eviction_undoes_registration(
    d: DirectoryModel,
    key: Seq<char>,
    at: IndexedAs<'_>,
    uid: u128,
    now: Timestamp,
)
    requires
        !d.registry.dom().contains(key),
        !d.stamps.dom().contains(key),
        !lists(d.index, at.index_key@, at.entity_id@),
        d.index.dom().contains(at.index_key@) ==> d.index[at.index_key@] != Set::<
            Seq<char>,
        >::empty(),
    ensures
        evicted(registered(d, key, at, uid, now), key, Some(at)) == d,
{
    crate::entity_index::law_unlisting_undoes_listing(d.index, at.index_key@, at.entity_id@);
    let after = evicted(registered(d, key, at, uid, now), key, Some(at));
    assert(after.registry =~= d.registry);
    assert(after.stamps =~= d.stamps);
}

/// A stamp changes when an actor was last used and nothing else, of that actor alone.
pub proof fn law_stamps_touch_one_actor(
    d: DirectoryModel,
    key: Seq<char>,
    now: Timestamp,
    other: Seq<char>,
)
    requires
        other != key,
    ensures
        ({
            let after = stamped(d, key, now);
            &&& after.registry == d.registry
            &&& after.index == d.index
            &&& after.hydrated == d.hydrated
            &&& after.stamps.dom().contains(key)
            &&& after.stamps[key] == now
            &&& after.stamps.dom().contains(other) == d.stamps.dom().contains(other)
            &&& d.stamps.dom().contains(other) ==> after.stamps[other] == d.stamps[other]
        }),
{
}

/// A registration stamps its actor with the time of the registration, and leaves every
/// other actor, stamp and listing as it was.
pub proof fn law_registration_spares_other_actors(
    d: DirectoryModel,
    key: Seq<char>,
    at: IndexedAs<'_>,
    uid: u128,
    now: Timestamp,
    other: Seq<char>,
    other_index: Seq<char>,
    other_id: Seq<char>,
)
    requires
        other != key,
        other_index != at.index_key@ || other_id != at.entity_id@,
    ensures
        ({
            let after = registered(d, key, at, uid, now);
            &&& after.stamps[key] == now
            &&& after.registry.dom().contains(other) == d.registry.dom().contains(other)
            &&& d.registry.dom().contains(other) ==> after.registry[other] == d.registry[other]
            &&& after.stamps.dom().contains(other) == d.stamps.dom().contains(other)
            &&& d.stamps.dom().contains(other) ==> after.stamps[other] == d.stamps[other]
            &&& lists(after.index, other_index, other_id) == lists(d.index, other_index, other_id)
            &&& after.hydrated == d.hydrated
        }),
{
    law_other_entities_stay_listed(d.index, at.index_key@, at.entity_id@, other_index, other_id);
}

/// An eviction that is not told to unlist anything leaves the index as it is, and an
/// actor is current under one identity at most.
pub proof fn law_dead_actors_stay_listed(
    d: DirectoryModel,
    key: Seq<char>,
    a: u128,
    b: u128,
)
    ensures
        evicted(d, key, None).index == d.index,
        evicted(d, key, None).hydrated == d.hydrated,
        is_current(d, key, a) && is_current(d, key, b) ==> a == b,
        !is_current(evicted(d, key, None), key, a),
        is_current(d, key, a) ==> d.registry.dom().contains(key) && d.registry[key] == a,
{
}

} // verus!
