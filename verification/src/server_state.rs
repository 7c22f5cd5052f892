//! The state of a server: its actors, tables, gates and caches together.

use vstd::prelude::*;
use vstd::string::*;

use crate::coverage::CoverageModel;
use crate::coverage::KeyIndexCoverage;
use crate::directory::is_current;
use crate::directory::stamped;
use crate::directory::ActorDirectory;
use crate::directory::DirectoryModel;
use crate::directory::IndexedAs;
use crate::entity_index::bucket;
use crate::entity_index::has_tenant;
use crate::entity_index::lists;
use crate::entity_index::scanned_keys;
use crate::entity_index::tenant_sizes;
use crate::entity_index::with_entities;
use crate::entity_index::ListPlan;
use crate::eviction::registered_uid;
use crate::eviction::without_entity;
use crate::gates::gated;
use crate::gates::ActivatingContracts;
use crate::gates::GenerationLease;
use crate::gates::TenantGate;
use crate::hints::is_enriched;
use crate::hints::AgentHints;
use crate::keys::actor_key;
use crate::keys::actor_key_of;
use crate::keys::index_key;
use crate::keys::index_key_of;
use crate::observe_events::newest;
use crate::observe_events::BoundedLog;
use crate::observe_events::DesignTimeEvent;
use crate::persistence::design_time_failure;
use crate::persistence::design_time_failure_text;
use crate::replay_parity::EntityRef;
use crate::sorted::ascending;
use crate::sorted::texts;
use crate::sorted::SortedMap;
use crate::state_cache::after_get;
use crate::state_cache::after_put;
use crate::state_cache::entry_of;
use crate::state_cache::holds;
use crate::state_cache::EntityStateCache;
use crate::tables::SpecTables;
use crate::timestamps::Timestamp;

verus! {

/// The tenant of requests that name none.
pub open spec fn default_tenant() -> Seq<char> {
    "default"@
}

/// The state of a server.
pub struct ServerState {
    pub directory: ActorDirectory,
    pub tables: SpecTables,
    pub activating: ActivatingContracts,
    pub coverage: KeyIndexCoverage,
    pub state_cache: EntityStateCache,
    pub agent_hints: SortedMap<String, AgentHints>,
    pub design_time_log: BoundedLog<DesignTimeEvent>,
}

/// Who may have the actor of an entity.
pub struct Admission<'a> {
    pub gate: TenantGate,
    pub lease: Option<&'a GenerationLease>,
}

/// The lease of an admission.
pub open spec fn lease_of(admission: Admission<'_>) -> Option<GenerationLease> {
    match admission.lease {
        Some(l) => Some(*l),
        None => None,
    }
}

/// A request for the actor of an entity is answered: it has none while its type
/// is gated, or where no table governs the type. A registered actor is stamped,
/// and without one a new one is spawned, listed and stamped.
pub open spec fn resolves<F: FnOnce() -> u128>(
    before: ServerState,
    after: ServerState,
    tenant: Seq<char>,
    entity_type: Seq<char>,
    entity_id: Seq<char>,
    admission: Admission<'_>,
    now: Timestamp,
    spawn: F,
    r: Option<(u128, bool)>,
) -> bool {
    let key = actor_key_of(tenant, entity_type, entity_id);
    let current = registered_uid(before.directory@, key);
    let closed = gated(
        before.activating@,
        tenant,
        entity_type,
        admission.gate,
        lease_of(admission),
    );
    let governed = before.tables.table(tenant, entity_type) is Some;
    &&& after == (ServerState { directory: after.directory, ..before })
    &&& r is Some == (!closed && (current is Some || governed))
    &&& match r {
        None => after.directory@ == before.directory@,
        Some((uid, spawned)) => spawned == (current is None) && if spawned {
            spawn.ensures((), uid) && is_spawned(
                before.directory@,
                tenant,
                entity_type,
                entity_id,
                uid,
                now,
                after.directory@,
            )
        } else {
            current == Some(uid) && after.directory@ == stamped(before.directory@, key, now)
        },
    }
}

impl ServerState {
    pub open spec fn wf(&self) -> bool {
        &&& self.directory.wf()
        &&& self.tables.wf()
        &&& self.activating.wf()
        &&& self.coverage.wf()
        &&& self.state_cache.wf()
        &&& self.agent_hints.wf()
        &&& forall|tenant: Seq<char>| #[trigger]
            self.agent_hints@.dom().contains(tenant) ==> self.agent_hints@[tenant].wf()
        &&& self.design_time_log.wf()
    }

    /// A server that has seen nothing, with the tables that it starts with.
    pub fn new(tables: SpecTables, cache_budget: usize, design_time_capacity: usize) -> (r:
        ServerState)
        requires
            tables.wf(),
            0 < cache_budget <= usize::MAX / 128,
            design_time_capacity > 0,
        ensures
            r.wf(),
            r.tables == tables,
            r.directory@ == (DirectoryModel {
                registry: Map::empty(),
                index: Map::empty(),
                hydrated: Set::empty(),
                stamps: Map::empty(),
            }),
            r.coverage@ == (CoverageModel { entries: Map::empty(), loaded: Set::empty() }),
            r.state_cache.entries() == Seq::<(Seq<char>, Seq<char>, i64, u32)>::empty(),
            r.activating@ == Set::<(Seq<char>, Seq<char>)>::empty(),
            r.state_cache.limit() == cache_budget,
            r.agent_hints@ == Map::<Seq<char>, AgentHints>::empty(),
            r.design_time_log@ == Seq::<DesignTimeEvent>::empty(),
            r.design_time_log.limit() == design_time_capacity,
    {
        ServerState {
            directory: ActorDirectory::new(),
            tables,
            activating: ActivatingContracts::new(),
            coverage: KeyIndexCoverage::new(),
            state_cache: EntityStateCache::new(cache_budget),
            agent_hints: SortedMap::new(),
            design_time_log: BoundedLog::new(design_time_capacity),
        }
    }

    // -----------------------------------------------------------------------
    // Actors
    // -----------------------------------------------------------------------

    /// How many actors are live.
    pub fn active_actor_count(&self) -> (r: u64)
        requires
            self.wf(),
        ensures
            r == self.directory@.registry.dom().len(),
    {
        self.directory.active_actor_count()
    }

    /// How many entities are listed.
    pub fn active_entity_count(&self) -> (r: u64)
        requires
            self.wf(),
            self.directory.collection.index.total() <= u64::MAX,
        ensures
            r == self.directory.collection.index.total(),
    {
        self.directory.active_entity_count()
    }

    /// How many entities are listed for each tenant.
    pub fn active_entity_counts_by_tenant(&self) -> (r: SortedMap<String, u64>)
        requires
            self.wf(),
            self.directory.collection.index.total() <= u64::MAX,
        ensures
            r.wf(),
            ({
                let index = self.directory.collection.index;
                &&& forall|t: Seq<char>| #[trigger]
                    r@.dom().contains(t) == has_tenant(index.index_keys(), t)
                &&& forall|t: Seq<char>|
                    #![trigger r@[t]]
                    r@.dom().contains(t) ==> r@[t] == tenant_sizes(
                        index.index_keys(),
                        index.id_sets(),
                        t,
                    )
            }),
    {
        self.directory.collection.index.counts_by_tenant()
    }

    /// The actor of an entity, and whether this call spawned it. There is none
    /// while its type is gated, or where no table governs the type.
    pub fn get_or_spawn_tenant_actor_with_fields<F: FnOnce() -> u128>(
        &mut self,
        tenant: &str,
        entity_type: &str,
        entity_id: &str,
        admission: Admission<'_>,
        now: Timestamp,
        spawn: F,
    ) -> (r: Option<(u128, bool)>)
        requires
            old(self).wf(),
            spawn.requires(()),
        ensures
            final(self).wf(),
            resolves(
                *old(self),
                *final(self),
                tenant@,
                entity_type@,
                entity_id@,
                admission,
                now,
                spawn,
                r,
            ),
    {
        if self.activating.actor_resolution_gated(
            tenant,
            entity_type,
            admission.gate,
            admission.lease,
        ) {
            return None;
        }
        let key = actor_key(tenant, entity_type, entity_id);
        let index = index_key(tenant, entity_type);
        let resident: bool = self.directory.registry.contains_key(&key);
        if !resident && !self.tables.is_entity_type_governed(tenant, entity_type) {
            return None;
        }
        Some(
            self.directory.get_or_register(
                key.as_str(),
                IndexedAs { index_key: index.as_str(), entity_id },
                now,
                spawn,
            ),
        )
    }

    /// The actor of an entity that starts without fields.
    pub fn get_or_spawn_tenant_actor<F: FnOnce() -> u128>(
        &mut self,
        tenant: &str,
        entity_type: &str,
        entity_id: &str,
        admission: Admission<'_>,
        now: Timestamp,
        spawn: F,
    ) -> (r: Option<(u128, bool)>)
        requires
            old(self).wf(),
            spawn.requires(()),
        ensures
            final(self).wf(),
            resolves(
                *old(self),
                *final(self),
                tenant@,
                entity_type@,
                entity_id@,
                admission,
                now,
                spawn,
                r,
            ),
    {
        self.get_or_spawn_tenant_actor_with_fields(
            tenant,
            entity_type,
            entity_id,
            admission,
            now,
            spawn,
        )
    }

    /// The actor of an entity of the default tenant.
    pub fn get_or_spawn_actor<F: FnOnce() -> u128>(
        &mut self,
        entity_type: &str,
        entity_id: &str,
        admission: Admission<'_>,
        now: Timestamp,
        spawn: F,
    ) -> (r: Option<(u128, bool)>)
        requires
            old(self).wf(),
            spawn.requires(()),
        ensures
            final(self).wf(),
            resolves(
                *old(self),
                *final(self),
                default_tenant(),
                entity_type@,
                entity_id@,
                admission,
                now,
                spawn,
                r,
            ),
    {
        self.get_or_spawn_tenant_actor("default", entity_type, entity_id, admission, now, spawn)
    }

    /// Removes an entity from memory, and hands out the actor that served it.
    pub fn remove_entity(&mut self, tenant: &str, entity_type: &str, entity_id: &str) -> (r: Option<
        u128,
    >)
        requires
            old(self).wf(),
        ensures
            final(self).wf(),
            r == registered_uid(
                old(self).directory@,
                actor_key_of(tenant@, entity_type@, entity_id@),
            ),
            final(self).directory@ == without_entity(
                old(self).directory@,
                tenant@,
                entity_type@,
                entity_id@,
                true,
            ),
            *final(self) == (ServerState { directory: final(self).directory, ..*old(self) }),
    {
        self.directory.remove_entity(tenant, entity_type, entity_id)
    }

    // -----------------------------------------------------------------------
    // Collections
    // -----------------------------------------------------------------------

    /// The listed ids of a type, in ascending order.
    pub fn list_entity_ids(&self, tenant: &str, entity_type: &str) -> (r: Vec<String>)
        requires
            self.wf(),
        ensures
            ascending::<String>(texts(r@)),
            texts(r@).to_set() == bucket(
                self.directory@.index,
                index_key_of(tenant@, entity_type@),
            ),
    {
        self.directory.collection.list_entity_ids(tenant, entity_type)
    }

    /// Whether an entity is listed.
    pub fn entity_exists(&self, tenant: &str, entity_type: &str, entity_id: &str) -> (r: bool)
        requires
            self.wf(),
        ensures
            r == lists(self.directory@.index, index_key_of(tenant@, entity_type@), entity_id@),
    {
        self.directory.collection.entity_exists(tenant, entity_type, entity_id)
    }

    /// The ids of a type, or that the store has to be scanned for them first.
    pub fn list_entity_ids_lazy(&self, tenant: &str, entity_type: &str, has_journal: bool) -> (r:
        ListPlan)
        requires
            self.wf(),
        ensures
            ({
                let key = index_key_of(tenant@, entity_type@);
                &&& r is Scan == (has_journal && !self.directory@.hydrated.contains(key))
                &&& r matches ListPlan::Serve(ids) ==> ascending::<String>(texts(ids@)) && texts(
                    ids@,
                ).to_set() == bucket(self.directory@.index, key)
            }),
    {
        self.directory.collection.plan_listing(tenant, entity_type, has_journal)
    }

    /// Takes in a scan of the whole store for a tenant, and says which of the
    /// entities are to be spawned at once because their states time out: the
    /// places of these in the scan.
    pub fn populate_index_from_store(&mut self, tenant: &str, entities: &Vec<EntityRef>) -> (r: Vec<
        usize,
    >)
        requires
            old(self).wf(),
        ensures
            final(self).wf(),
            final(self).directory@ == (DirectoryModel {
                index: with_entities(old(self).directory@.index, tenant@, entities@),
                hydrated: old(self).directory@.hydrated.union(scanned_keys(tenant@, entities@)),
                ..old(self).directory@
            }),
            forall|k: int| 0 <= k < r@.len() ==> #[trigger] r@[k] < entities@.len(),
            forall|k: int|
                0 <= k < r@.len() ==> old(self).tables.times_out(
                    tenant@,
                    entities@[#[trigger] r@[k] as int].entity_type@,
                ),
            forall|i: int|
                0 <= i < entities@.len() && old(self).tables.times_out(
                    tenant@,
                    (#[trigger] entities@[i]).entity_type@,
                ) ==> r@.contains(i as usize),
            forall|k: int, l: int| 0 <= k < l < r@.len() ==> #[trigger] r@[k] < #[trigger] r@[l],
            *final(self) == (ServerState { directory: final(self).directory, ..*old(self) }),
    {
        let timed: Vec<usize> = self.tables.timed_entities(tenant, entities);
        self.directory.collection.populate_index_from_store(tenant, entities);
        timed
    }

    /// Takes in a scan of the store for one type, and says how many ids it saw.
    pub fn populate_index_from_store_by_type(
        &mut self,
        tenant: &str,
        entity_type: &str,
        ids: &Vec<String>,
    ) -> (r: usize)
        requires
            old(self).wf(),
        ensures
            final(self).wf(),
            r == ids@.len(),
            ({
                let key = index_key_of(tenant@, entity_type@);
                final(self).directory@ == (DirectoryModel {
                    index: old(self).directory@.index.insert(
                        key,
                        bucket(old(self).directory@.index, key).union(texts(ids@).to_set()),
                    ),
                    hydrated: old(self).directory@.hydrated.insert(key),
                    ..old(self).directory@
                })
            }),
            *final(self) == (ServerState { directory: final(self).directory, ..*old(self) }),
    {
        self.directory.collection.populate_index_from_store_by_type(tenant, entity_type, ids)
    }

    /// Ends a hydration that went through every durable entity of a tenant: their
    /// types are complete. `loaded` tells of each entity whether it was loaded;
    /// the answer is how many were.
    pub fn hydrate_from_store(
        &mut self,
        tenant: &str,
        entities: &Vec<EntityRef>,
        loaded: &Vec<bool>,
    ) -> (r: usize)
        requires
            old(self).wf(),
        ensures
            final(self).wf(),
            r == count_true(loaded@),
            final(self).directory@ == (DirectoryModel {
                hydrated: old(self).directory@.hydrated.union(scanned_keys(tenant@, entities@)),
                ..old(self).directory@
            }),
            *final(self) == (ServerState { directory: final(self).directory, ..*old(self) }),
    {
        self.directory.collection.mark_types_hydrated(tenant, entities);
        let mut count: usize = 0;
        let mut i: usize = 0;
        assert(loaded@.take(0) =~= Seq::<bool>::empty());
        while i < loaded.len()
            invariant
                i <= loaded@.len(),
                count <= i,
                count == count_true(loaded@.take(i as int)),
            decreases loaded@.len() - i,
        {
            proof {
                let long = loaded@.take(i + 1);
                assert(long.drop_last() =~= loaded@.take(i as int));
                assert(long.last() == loaded@[i as int]);
            }
            if loaded[i] {
                count += 1;
            }
            i += 1;
        }
        assert(loaded@.take(i as int) =~= loaded@);
        count
    }

    // -----------------------------------------------------------------------
    // Status, hints and logs
    // -----------------------------------------------------------------------

    /// The status of an entity, as the cache has it.
    pub fn cached_entity_status(&mut self, tenant: &str, entity_type: &str, entity_id: &str) -> (r:
        Option<String>)
        requires
            old(self).wf(),
        ensures
            final(self).wf(),
            ({
                let key = actor_key_of(tenant@, entity_type@, entity_id@);
                let entries = old(self).state_cache.entries();
                &&& r is Some == holds(entries, key)
                &&& r matches Some(s) ==> s@ == entry_of(entries, key).1
                &&& final(self).state_cache.entries() == after_get(entries, key)
            }),
            final(self).state_cache.limit() == old(self).state_cache.limit(),
            *final(self) == (ServerState { state_cache: final(self).state_cache, ..*old(self) }),
    {
        self.state_cache.status(tenant, entity_type, entity_id)
    }

    /// The status of an entity: what the cache has, or else what the entity itself
    /// answered, which is then cached.
    pub fn resolve_entity_status(
        &mut self,
        tenant: &str,
        entity_type: &str,
        entity_id: &str,
        answered: Option<String>,
        now: Timestamp,
    ) -> (r: Option<String>)
        requires
            old(self).wf(),
        ensures
            final(self).wf(),
            ({
                let key = actor_key_of(tenant@, entity_type@, entity_id@);
                let entries = old(self).state_cache.entries();
                let limit = old(self).state_cache.limit();
                if holds(entries, key) {
                    &&& r matches Some(s)
                    &&& s@ == entry_of(entries, key).1
                    &&& final(self).state_cache.entries() == after_get(entries, key)
                } else {
                    &&& r == answered
                    &&& final(self).state_cache.entries() == match answered {
                        Some(s) => after_put(entries, limit, (key, s@, now.secs, now.nanos)),
                        None => entries,
                    }
                }
            }),
            final(self).state_cache.limit() == old(self).state_cache.limit(),
            *final(self) == (ServerState { state_cache: final(self).state_cache, ..*old(self) }),
    {
        match self.state_cache.status(tenant, entity_type, entity_id) {
            Some(status) => Some(status),
            None => self.state_cache.settle_status(
                tenant,
                entity_type,
                entity_id,
                answered,
                now,
            ),
        }
    }

    /// Leaves a hint on an action of a tenant.
    pub fn enrich_metadata(&mut self, tenant: &str, action_name: &str, hint: &str)
        requires
            old(self).wf(),
        ensures
            final(self).wf(),
            *final(self) == (ServerState { agent_hints: final(self).agent_hints, ..*old(self) }),
            final(self).agent_hints@.dom() == old(self).agent_hints@.dom().insert(tenant@),
            forall|other: Seq<char>|
                other != tenant@ && #[trigger] old(self).agent_hints@.dom().contains(other)
                    ==> final(self).agent_hints@[other] == old(self).agent_hints@[other],
            ({
                let before = if old(self).agent_hints@.dom().contains(tenant@) {
                    old(self).agent_hints@[tenant@]@
                } else {
                    Map::empty()
                };
                is_enriched(
                    before.insert(action_name@, hint@),
                    final(self).agent_hints@[tenant@]@,
                )
            }),
    {
        let key = tenant.to_owned();
        let mut hints = match self.agent_hints.remove(&key) {
            Some(h) => h,
            None => AgentHints::new(),
        };
        hints.enrich_metadata(action_name, hint);
        let _ = self.agent_hints.insert(key, hints);
        assert(self.agent_hints@.dom() =~= old(self).agent_hints@.dom().insert(tenant@));
    }

    /// Logs a design-time event; the oldest leaves a full log.
    pub fn push_design_time_event(&mut self, event: DesignTimeEvent)
        requires
            old(self).wf(),
        ensures
            final(self).wf(),
            final(self).design_time_log@ == newest(
                old(self).design_time_log@.push(event),
                old(self).design_time_log.limit(),
            ),
            final(self).design_time_log.limit() == old(self).design_time_log.limit(),
            *final(self) == (ServerState {
                design_time_log: final(self).design_time_log,
                ..*old(self)
            }),
    {
        self.design_time_log.push(event);
    }

    /// Takes in how a design-time event was written, where there is a store for
    /// it. It is logged once it is written, and not where that failed.
    pub fn emit_design_time_event(
        &mut self,
        event: DesignTimeEvent,
        written: Option<Result<(), String>>,
    ) -> (r: Result<(), String>)
        requires
            old(self).wf(),
        ensures
            final(self).wf(),
            match written {
                Some(Err(error)) => {
                    &&& *final(self) == *old(self)
                    &&& r matches Err(e)
                    &&& e@ == design_time_failure_text(event, error@)
                },
                _ => {
                    &&& r is Ok
                    &&& final(self).design_time_log@ == newest(
                        old(self).design_time_log@.push(event),
                        old(self).design_time_log.limit(),
                    )
                    &&& final(self).design_time_log.limit() == old(self).design_time_log.limit()
                    &&& *final(self) == (ServerState {
                        design_time_log: final(self).design_time_log,
                        ..*old(self)
                    })
                },
            },
    {
        match written {
            Some(Err(error)) => Err(design_time_failure(&event, error.as_str())),
            _ => {
                self.push_design_time_event(event);
                Ok(())
            },
        }
    }
}

/// The directory has the new actor of an entity, listed and stamped.
pub open spec fn is_spawned(
    before: DirectoryModel,
    tenant: Seq<char>,
    entity_type: Seq<char>,
    entity_id: Seq<char>,
    uid: u128,
    now: Timestamp,
    after: DirectoryModel,
) -> bool {
    let key = actor_key_of(tenant, entity_type, entity_id);
    after == (DirectoryModel {
        registry: before.registry.insert(key, uid),
        index: crate::entity_index::with_id(
            before.index,
            index_key_of(tenant, entity_type),
            entity_id,
        ),
        hydrated: before.hydrated,
        stamps: before.stamps.insert(key, now),
    })
}

/// How many are true.
pub open spec fn count_true(all: Seq<bool>) -> nat
    decreases all.len(),
{
    if all.len() == 0 {
        0
    } else {
        count_true(all.drop_last()) + if all.last() {
            1nat
        } else {
            0nat
        }
    }
}

/// A request is answered by the gates, the registry and the tables: while its type is
/// gated there is no actor and nothing changes; a registered actor is handed out as it is;
/// and a new one is spawned only where none is registered and some table governs the type,
/// and is then registered, listed and stamped at once.
pub proof fn law_requests_are_answered_by_the_registry<F: FnOnce() -> u128>(
    before: ServerState,
    after: ServerState,
    tenant: Seq<char>,
    entity_type: Seq<char>,
    entity_id: Seq<char>,
    admission: Admission<'_>,
    now: Timestamp,
    spawn: F,
    r: Option<(u128, bool)>,
)
    requires
        resolves(
            before,
            after,
            tenant,
            entity_type,
            entity_id,
            admission,
            now,
            spawn,
            r,
        ),
    ensures
        ({
            let key = actor_key_of(tenant, entity_type, entity_id);
            let was = before.directory@.registry;
            &&& before.activating@.contains((tenant, entity_type)) ==> r is None
            &&& admission.gate.closed && admission.lease is None ==> r is None
            &&& r is None ==> after.directory@ == before.directory@
            &&& !before.activating@.contains((tenant, entity_type)) && !admission.gate.closed
                && was.dom().contains(key) ==> r == Some((was[key], false))
            &&& !before.activating@.contains((tenant, entity_type)) && !admission.gate.closed
                && !was.dom().contains(key) ==> r is Some == (before.tables.table(
                tenant,
                entity_type,
            ) is Some)
            &&& r matches Some((uid, spawned)) ==> {
                &&& spawned == !was.dom().contains(key)
                &&& is_current(after.directory@, key, uid)
                &&& after.directory@.stamps.dom().contains(key)
                &&& after.directory@.stamps[key] == now
                &&& spawned ==> lists(
                    after.directory@.index,
                    index_key_of(tenant, entity_type),
                    entity_id,
                ) && spawn.ensures((), uid)
                &&& !spawned ==> after.directory@.index == before.directory@.index
            }
            &&& after.tables == before.tables
            &&& after.state_cache == before.state_cache
            &&& after.activating == before.activating
            &&& after.coverage == before.coverage
        }),
{
}

/// A request for one entity touches no other: other actors stay registered as they were.
pub proof fn law_requests_touch_one_entity<F: FnOnce() -> u128>(
    before: ServerState,
    after: ServerState,
    tenant: Seq<char>,
    entity_type: Seq<char>,
    entity_id: Seq<char>,
    admission: Admission<'_>,
    now: Timestamp,
    spawn: F,
    r: Option<(u128, bool)>,
    other: Seq<char>,
)
    requires
        resolves(
            before,
            after,
            tenant,
            entity_type,
            entity_id,
            admission,
            now,
            spawn,
            r,
        ),
        other != actor_key_of(tenant, entity_type, entity_id),
    ensures
        registered_uid(after.directory@, other) == registered_uid(before.directory@, other),
        after.directory@.stamps.dom().contains(other) == before.directory@.stamps.dom().contains(
            other,
        ),
        before.directory@.stamps.dom().contains(other) ==> after.directory@.stamps[other]
            == before.directory@.stamps[other],
        after.directory@.hydrated == before.directory@.hydrated,
{
}

/// The count is the number of those that were loaded, and requests that name no tenant are
/// those of the tenant called default.
pub proof fn law_loaded_entities_are_counted(all: Seq<bool>)
    ensures
        count_true(all) == all.filter(|b: bool| b).len(),
        count_true(all) <= all.len(),
        default_tenant() == "default"@,
    decreases all.len(),
{
    reveal(Seq::filter);
    if all.len() > 0 {
        law_loaded_entities_are_counted(all.drop_last());
    }
}

} // verus!
