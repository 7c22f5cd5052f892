//! Creating, reading, updating and deleting entities: what an answer of an
//! actor or a store comes to.

use vstd::prelude::*;
use vstd::string::*;

use crate::create_errors::context_text;
use crate::create_errors::detail_of;
use crate::create_errors::in_context;
use crate::create_errors::ActorError;
use crate::create_errors::EntityCreateError;
use crate::create_errors::StoreError;
use crate::create_errors::StoreRefusal;
use crate::directory::ActorDirectory;
use crate::directory::DirectoryModel;
use crate::directory::InitFailureKind;
use crate::entity_index::law_other_entities_stay_listed;
use crate::entity_index::lists;
use crate::entity_index::with_id;
use crate::entity_state::copy_event;
use crate::entity_state::has_initial_fields;
use crate::entity_state::same_event;
use crate::entity_state::EntityEvent;
use crate::entity_state::EntityState;
use crate::json::copy_json;
use crate::json::json_wf;
use crate::json::same_json;
use crate::json::JsonValue;
use crate::keys::actor_key;
use crate::keys::actor_key_of;
use crate::keys::index_key;
use crate::keys::index_key_of;
use crate::observe_events::newest;
use crate::sorted::SortedMap;
use crate::tables::no_table_error;
use crate::tables::no_table_text;
use crate::tables::TableInfo;
use crate::text::has_prefix;
use crate::timestamps::Timestamp;

verus! {

/// The answer to a request on an entity.
pub struct EntityResponse {
    pub success: bool,
    pub state: EntityState,
    pub error: Option<String>,
    /// The effects that are to be carried out, by name.
    pub custom_effects: Vec<String>,
    /// The actions that are to follow later, by name.
    pub scheduled_actions: Vec<String>,
    /// The entities that are to be spawned, by key.
    pub spawn_requests: Vec<String>,
    pub spec_governed: bool,
}

impl EntityResponse {
    /// Nothing follows from the answer.
    pub open spec fn asks_for_nothing(self) -> bool {
        &&& self.custom_effects@.len() == 0
        &&& self.scheduled_actions@.len() == 0
        &&& self.spawn_requests@.len() == 0
    }
}

/// What subscribers are told of a change.
#[derive(Debug)]
pub struct EntityStateChange {
    pub seq: u64,
    pub entity_type: String,
    pub entity_id: String,
    pub action: String,
    pub status: String,
    pub tenant: String,
    pub agent_id: Option<String>,
    pub session_id: Option<String>,
    pub intent: Option<String>,
    pub observation_metadata: Option<JsonValue>,
}

/// The change tells of a new entity, and of no agent behind it.
pub open spec fn tells_of_creation(
    change: EntityStateChange,
    seq: u64,
    tenant: Seq<char>,
    entity_type: Seq<char>,
    entity_id: Seq<char>,
    status: Seq<char>,
) -> bool {
    &&& change.seq == seq
    &&& change.entity_type@ == entity_type
    &&& change.entity_id@ == entity_id
    &&& change.action@ == "Created"@
    &&& change.status@ == status
    &&& change.tenant@ == tenant
    &&& change.agent_id is None
    &&& change.session_id is None
    &&& change.intent is None
    &&& change.observation_metadata is None
}

/// What subscribers are told of a new entity.
pub fn created_change(
    seq: u64,
    tenant: &str,
    entity_type: &str,
    entity_id: &str,
    status: &str,
) -> (r: EntityStateChange)
    ensures
        tells_of_creation(r, seq, tenant@, entity_type@, entity_id@, status@),
{
    EntityStateChange {
        seq,
        entity_type: entity_type.to_owned(),
        entity_id: entity_id.to_owned(),
        action: "Created".to_owned(),
        status: status.to_owned(),
        tenant: tenant.to_owned(),
        agent_id: None,
        session_id: None,
        intent: None,
        observation_metadata: None,
    }
}

// ---------------------------------------------------------------------------
// Plain data
// ---------------------------------------------------------------------------

/// A type whose entities can be created without an actor: its table has no
/// rules, and its history and its projection can be written.
pub open spec fn is_plain_data(
    fields: JsonValue,
    actor_backed: bool,
    table: Option<TableInfo>,
    has_journal: bool,
    has_query_plane: bool,
) -> bool {
    fields is Object && !actor_backed && (table matches Some(t) && !t.has_rules) && has_journal
        && has_query_plane
}

/// A creation that needs no actor.
pub struct DataOnlyCreate {
    /// The key of the entity's journal.
    pub persistence_id: String,
    /// The state before the first event.
    pub state: EntityState,
    /// The first event, which has sequence number one.
    pub created: EntityEvent,
}

impl DataOnlyCreate {
    pub open spec fn wf(&self) -> bool {
        self.state.wf() && self.state.is_initial() && json_wf(self.created.params)
    }

    /// The state that the projection shows: the first event has happened.
    pub fn projected_state(&self, window: usize) -> (r: EntityState)
        requires
            self.wf(),
        ensures
            r.wf(),
            r.entity_type@ == self.state.entity_type@,
            r.entity_id@ == self.state.entity_id@,
            r.status@ == self.state.status@,
            same_json(r.fields, self.state.fields),
            r.sequence_nr == 1,
            r.total_event_count == 1,
            r.events_since_snapshot == 1,
            r.last_snapshot_sequence_nr == 0,
            window > 0 ==> r.events@.len() == 1 && same_event(r.events@[0], self.created),
            window == 0 ==> r.events@.len() == 0,
            r.item_count == 0,
            r.counters@ == Map::<Seq<char>, usize>::empty(),
            r.booleans@ == Map::<Seq<char>, bool>::empty(),
            r.lists@ == Map::<Seq<char>, Vec<String>>::empty(),
    {
        let mut state = EntityState {
            entity_type: self.state.entity_type.clone(),
            entity_id: self.state.entity_id.clone(),
            status: self.state.status.clone(),
            item_count: 0,
            counters: SortedMap::new(),
            booleans: SortedMap::new(),
            lists: SortedMap::new(),
            fields: copy_json(&self.state.fields),
            events: Vec::new(),
            total_event_count: 0,
            events_since_snapshot: 0,
            last_snapshot_sequence_nr: 0,
            sequence_nr: 1,
        };
        state.push_recent_event(copy_event(&self.created), window);
        state
    }
}

/// Plans a creation without an actor, where the type is plain data.
pub fn plan_data_only_create(
    tenant: &str,
    entity_type: &str,
    entity_id: &str,
    initial_fields: JsonValue,
    actor_backed: bool,
    table: Option<&TableInfo>,
    has_journal: bool,
    has_query_plane: bool,
    now: Timestamp,
) -> (r: Option<DataOnlyCreate>)
    requires
        json_wf(initial_fields),
    ensures
        r is Some == is_plain_data(
            initial_fields,
            actor_backed,
            match table {
                Some(t) => Some(*t),
                None => None,
            },
            has_journal,
            has_query_plane,
        ),
        r matches Some(plan) ==> {
            let status = table->0.initial_state@;
            &&& plan.wf()
            &&& plan.persistence_id@ == actor_key_of(tenant@, entity_type@, entity_id@)
            &&& plan.state.entity_type@ == entity_type@
            &&& plan.state.entity_id@ == entity_id@
            &&& plan.state.status@ == status
            &&& has_initial_fields(initial_fields, entity_id@, status, plan.state.fields)
            &&& plan.created.action@ == "Created"@
            &&& plan.created.from_status@ == Seq::<char>::empty()
            &&& plan.created.to_status@ == status
            &&& plan.created.timestamp == now
            &&& same_json(plan.created.params, initial_fields)
            &&& plan.created.idempotency_key is None
        },
{
    let is_object: bool = match &initial_fields {
        JsonValue::Object(_) => true,
        _ => false,
    };
    if !is_object || actor_backed || !has_journal || !has_query_plane {
        return None;
    }
    let table = match table {
        Some(t) => t,
        None => {
            return None;
        },
    };
    if table.has_rules {
        return None;
    }
    let status = table.initial_state.as_str();
    let params = copy_json(&initial_fields);
    proof {
        reveal_strlit("");
        assert(""@ =~= Seq::<char>::empty());
    }
    Some(
        DataOnlyCreate {
            persistence_id: actor_key(tenant, entity_type, entity_id),
            state: EntityState::initial(entity_type, entity_id, status, initial_fields),
            created: EntityEvent {
                action: "Created".to_owned(),
                from_status: "".to_owned(),
                to_status: status.to_owned(),
                timestamp: now,
                params,
                idempotency_key: None,
            },
        },
    )
}

/// Whether one write holds both the event and the projection, or the projection
/// is written after the event.
#[derive(Clone, Copy, PartialEq, Eq, Structural, Debug)]
pub enum CreateStore {
    Native,
    Journal,
}

/// What a write of the first event comes to.
pub enum CreateStep {
    /// It has this sequence number.
    Written(u64),
    /// Another write came first: the creation goes through an actor.
    NotEligible,
    /// The creation failed.
    Failed(EntityCreateError),
}

/// The context of a failed first write.
pub open spec fn create_context(
    store: CreateStore,
    entity_type: Seq<char>,
    entity_id: Seq<char>,
) -> Seq<char> {
    (match store {
        CreateStore::Native => "native data-only create failed for "@,
        CreateStore::Journal => "failed to persist data-only Created event for "@,
    }) + entity_type + ":"@ + entity_id
}

/// The error is the classification of a store's failure in a context.
pub open spec fn classifies(error: EntityCreateError, context: Seq<char>, failure: StoreError) -> bool {
    &&& error is DeclaredKeyConflict == (failure.refusal == StoreRefusal::DeclaredKey)
    &&& error is TransientDependency == (failure.refusal != StoreRefusal::DeclaredKey
        && failure.transient)
    &&& detail_of(error)@ == if failure.refusal == StoreRefusal::DeclaredKey {
        failure.message@
    } else {
        in_context(context, failure.message@)
    }
}

/// Takes in how the write of the first event went.
pub fn settle_first_write(
    store: CreateStore,
    entity_type: &str,
    entity_id: &str,
    written: Result<u64, StoreError>,
) -> (r: CreateStep)
    ensures
        match written {
            Ok(sequence_nr) => r == CreateStep::Written(sequence_nr),
            Err(e) => if e.refusal == StoreRefusal::Concurrency {
                r is NotEligible
            } else {
                r matches CreateStep::Failed(error) && classifies(
                    error,
                    create_context(store, entity_type@, entity_id@),
                    e,
                )
            },
        },
{
    match written {
        Ok(sequence_nr) => CreateStep::Written(sequence_nr),
        Err(e) => {
            if e.refusal == StoreRefusal::Concurrency {
                return CreateStep::NotEligible;
            }
            let mut context = match store {
                CreateStore::Native => "native data-only create failed for ".to_owned(),
                CreateStore::Journal => "failed to persist data-only Created event for ".to_owned(),
            };
            context.append(entity_type);
            context.append(":");
            context.append(entity_id);
            CreateStep::Failed(EntityCreateError::from_persistence_error(context.as_str(), &e))
        },
    }
}

/// Which creation a projection is written for.
#[derive(Clone, Copy, PartialEq, Eq, Structural, Debug)]
pub enum CreatePath {
    DataOnly,
    Actor,
}

/// The context of a failed projection.
pub open spec fn projection_context(path: CreatePath) -> Seq<char> {
    match path {
        CreatePath::DataOnly => "query projection write failed during data-only create"@,
        CreatePath::Actor => "query projection write failed during create"@,
    }
}

/// Takes in how the write of a new entity's projection went. A failure is not
/// swallowed: the entity could not be found by a query.
pub fn settle_create_projection(path: CreatePath, failure: Option<StoreError>) -> (r: Result<
    (),
    EntityCreateError,
>)
    ensures
        r is Err == failure is Some,
        r matches Err(error) ==> classifies(error, projection_context(path), failure->0),
{
    match failure {
        None => Ok(()),
        Some(e) => {
            let context: &str = match path {
                CreatePath::DataOnly => "query projection write failed during data-only create",
                CreatePath::Actor => "query projection write failed during create",
            };
            Err(EntityCreateError::from_persistence_error(context, &e))
        },
    }
}

/// Ends a creation without an actor: the entity is listed, its state is after
/// its first event, and subscribers are told.
pub fn finish_data_only_create(
    directory: &mut ActorDirectory,
    tenant: &str,
    plan: DataOnlyCreate,
    sequence_nr: u64,
    window: usize,
    seq: u64,
) -> (r: (EntityResponse, EntityStateChange))
    requires
        old(directory).wf(),
        plan.wf(),
    ensures
        final(directory).wf(),
        final(directory)@ == with_listing(
            old(directory)@,
            tenant@,
            plan.state.entity_type@,
            plan.state.entity_id@,
        ),
        ended_created(r, tenant@, plan, sequence_nr, window, seq),
{
    let mut state = plan.state;
    state.sequence_nr = sequence_nr;
    state.push_recent_event(plan.created, window);
    let key = index_key(tenant, state.entity_type.as_str());
    directory.collection.index.insert(key.as_str(), state.entity_id.as_str());
    let change = created_change(
        seq,
        tenant,
        state.entity_type.as_str(),
        state.entity_id.as_str(),
        state.status.as_str(),
    );
    let response = EntityResponse {
        success: true,
        state,
        error: None,
        custom_effects: Vec::new(),
        scheduled_actions: Vec::new(),
        spawn_requests: Vec::new(),
        spec_governed: true,
    };
    (response, change)
}

/// Whether the projection is to be written after the first event was.
pub fn projects_after(store: CreateStore, written: &Result<u64, StoreError>) -> (r: bool)
    ensures
        r == (store == CreateStore::Journal && *written is Ok),
{
    match written {
        Ok(_) => store == CreateStore::Journal,
        Err(_) => false,
    }
}

/// The creation ended with a state after its first event.
pub open spec fn ended_created(
    done: (EntityResponse, EntityStateChange),
    tenant: Seq<char>,
    plan: DataOnlyCreate,
    sequence_nr: u64,
    window: usize,
    seq: u64,
) -> bool {
    &&& done.0.success
    &&& done.0.error is None
    &&& done.0.spec_governed
    &&& done.0.asks_for_nothing()
    &&& done.0.state == (EntityState { sequence_nr, ..plan.state }).counted(done.0.state.events)
    &&& done.0.state.events@ == newest(Seq::empty().push(plan.created), window as nat)
    &&& tells_of_creation(
        done.1,
        seq,
        tenant,
        plan.state.entity_type@,
        plan.state.entity_id@,
        plan.state.status@,
    )
}

/// The directory with one more entity listed.
pub open spec fn with_listing(
    d: DirectoryModel,
    tenant: Seq<char>,
    entity_type: Seq<char>,
    entity_id: Seq<char>,
) -> DirectoryModel {
    DirectoryModel {
        index: with_id(d.index, index_key_of(tenant, entity_type), entity_id),
        ..d
    }
}

/// Decides a creation without an actor by how its writes went: that of the first
/// event, and that of the projection where it was due. Nothing comes of it where
/// another write of the entity came first, and only what was written in full is
/// listed and told of.
pub fn try_create_data_only_tenant_entity(
    directory: &mut ActorDirectory,
    tenant: &str,
    plan: DataOnlyCreate,
    store: CreateStore,
    written: Result<u64, StoreError>,
    projection_failure: Option<StoreError>,
    window: usize,
    seq: u64,
) -> (r: Result<Option<(EntityResponse, EntityStateChange)>, EntityCreateError>)
    requires
        old(directory).wf(),
        plan.wf(),
    ensures
        final(directory).wf(),
        match written {
            Err(e) => {
                &&& final(directory)@ == old(directory)@
                &&& if e.refusal == StoreRefusal::Concurrency {
                    r matches Ok(done) && done is None
                } else {
                    r matches Err(error) && classifies(
                        error,
                        create_context(store, plan.state.entity_type@, plan.state.entity_id@),
                        e,
                    )
                }
            },
            Ok(sequence_nr) => if store == CreateStore::Journal && projection_failure is Some {
                &&& final(directory)@ == old(directory)@
                &&& r matches Err(error)
                &&& classifies(error, projection_context(CreatePath::DataOnly), projection_failure->0)
            } else {
                &&& final(directory)@ == with_listing(
                    old(directory)@,
                    tenant@,
                    plan.state.entity_type@,
                    plan.state.entity_id@,
                )
                &&& r matches Ok(Some(done))
                &&& ended_created(done, tenant@, plan, sequence_nr, window, seq)
            },
        },
{
    let sequence_nr: u64 = match settle_first_write(
        store,
        plan.state.entity_type.as_str(),
        plan.state.entity_id.as_str(),
        written,
    ) {
        CreateStep::NotEligible => {
            return Ok(None);
        },
        CreateStep::Failed(error) => {
            return Err(error);
        },
        CreateStep::Written(sequence_nr) => sequence_nr,
    };
    if store == CreateStore::Journal {
        match settle_create_projection(CreatePath::DataOnly, projection_failure) {
            Ok(_) => {},
            Err(error) => {
                return Err(error);
            },
        }
    }
    Ok(Some(finish_data_only_create(directory, tenant, plan, sequence_nr, window, seq)))
}

// ---------------------------------------------------------------------------
// Answers of actors
// ---------------------------------------------------------------------------

/// What asking for an entity's actor gave.
pub enum ActorAnswer {
    /// No actor could be had.
    NoActor,
    /// The actor failed.
    Failed(ActorError),
    /// The actor answered.
    Answered(EntityResponse),
}

/// What a creation fails with when its actor does not answer.
pub open spec fn is_create_error(
    error: EntityCreateError,
    tenant: Seq<char>,
    entity_type: Seq<char>,
    answer: ActorAnswer,
) -> bool {
    match answer {
        ActorAnswer::NoActor => error is Internal && detail_of(error)@ == no_table_text(
            tenant,
            entity_type,
        ),
        ActorAnswer::Failed(failure) => {
            &&& detail_of(error)@ == failure.message@
            &&& error is DeclaredKeyConflict == (failure.init_failure == Some(
                InitFailureKind::Constraint,
            ))
            &&& error is TransientDependency == (failure.init_failure == Some(
                InitFailureKind::TransientDependency,
            ) || (failure.init_failure is None && failure.transient))
        },
        ActorAnswer::Answered(_) => false,
    }
}

/// Takes in an actor's answer to a creation.
pub fn settle_create(
    tenant: &str,
    entity_type: &str,
    entity_id: &str,
    seq: u64,
    answer: ActorAnswer,
) -> (r: Result<(EntityResponse, EntityStateChange), EntityCreateError>)
    ensures
        match answer {
            ActorAnswer::Answered(response) => r matches Ok(done) && done.0 == response
                && tells_of_creation(
                done.1,
                seq,
                tenant@,
                entity_type@,
                entity_id@,
                response.state.status@,
            ),
            _ => r matches Err(error) && is_create_error(error, tenant@, entity_type@, answer),
        },
{
    match answer {
        ActorAnswer::NoActor => Err(
            EntityCreateError::Internal { detail: no_table_error(tenant, entity_type) },
        ),
        ActorAnswer::Failed(failure) => Err(EntityCreateError::from_actor_error(&failure)),
        ActorAnswer::Answered(response) => {
            let change = created_change(
                seq,
                tenant,
                entity_type,
                entity_id,
                response.state.status.as_str(),
            );
            Ok((response, change))
        },
    }
}

/// Decides a creation through an actor by its answer and by how the write of the
/// projection went. Subscribers are told as soon as the actor has answered, so
/// also of an entity whose projection then could not be written.
pub fn get_or_create_tenant_entity(
    tenant: &str,
    entity_type: &str,
    entity_id: &str,
    seq: u64,
    answer: ActorAnswer,
    projection_failure: Option<StoreError>,
) -> (r: (Option<EntityStateChange>, Result<EntityResponse, EntityCreateError>))
    ensures
        match answer {
            ActorAnswer::Answered(response) => {
                &&& r.0 matches Some(change)
                &&& tells_of_creation(
                    change,
                    seq,
                    tenant@,
                    entity_type@,
                    entity_id@,
                    response.state.status@,
                )
                &&& match projection_failure {
                    None => r.1 matches Ok(done) && done == response,
                    Some(failure) => r.1 matches Err(error) && classifies(
                        error,
                        projection_context(CreatePath::Actor),
                        failure,
                    ),
                }
            },
            _ => r.0 is None && (r.1 matches Err(error) && is_create_error(
                error,
                tenant@,
                entity_type@,
                answer,
            )),
        },
{
    match settle_create(tenant, entity_type, entity_id, seq, answer) {
        Err(error) => (None, Err(error)),
        Ok((response, change)) => match settle_create_projection(
            CreatePath::Actor,
            projection_failure,
        ) {
            Ok(_) => (Some(change), Ok(response)),
            Err(error) => (Some(change), Err(error)),
        },
    }
}

/// Takes in an actor's answer to a read.
pub fn get_tenant_entity_state(tenant: &str, entity_type: &str, answer: ActorAnswer) -> (r: Result<
    EntityResponse,
    String,
>)
    ensures
        match answer {
            ActorAnswer::NoActor => r matches Err(e) && e@ == no_table_text(tenant@, entity_type@),
            ActorAnswer::Failed(failure) => r matches Err(e) && e@ == in_context(
                "Actor query failed"@,
                failure.message@,
            ),
            ActorAnswer::Answered(response) => r matches Ok(done) && done == response,
        },
{
    match answer {
        ActorAnswer::NoActor => Err(no_table_error(tenant, entity_type)),
        ActorAnswer::Failed(failure) => Err(
            context_text("Actor query failed", failure.message.as_str()),
        ),
        ActorAnswer::Answered(response) => Ok(response),
    }
}

/// The key under which an update is recognized when it comes again: the given
/// one, or one made from a fresh id.
pub fn update_idempotency_key(given: Option<String>, fresh: &str) -> (r: String)
    ensures
        r@ == (match given {
            Some(key) => key@,
            None => "field-update:"@ + fresh@,
        }),
{
    match given {
        Some(key) => key,
        None => {
            let mut key = "field-update:".to_owned();
            key.append(fresh);
            key
        },
    }
}

/// Takes in an actor's answer to an update. A rejected update is an error.
pub fn settle_update(tenant: &str, entity_type: &str, answer: ActorAnswer) -> (r: Result<
    EntityResponse,
    String,
>)
    ensures
        match answer {
            ActorAnswer::NoActor => r matches Err(e) && e@ == no_table_text(tenant@, entity_type@),
            ActorAnswer::Failed(failure) => r matches Err(e) && e@ == in_context(
                "Actor update failed"@,
                failure.message@,
            ),
            ActorAnswer::Answered(response) => if response.success {
                r matches Ok(done) && done == response
            } else {
                r matches Err(e) && e@ == (match response.error {
                    Some(error) => error@,
                    None => "field update was rejected"@,
                })
            },
        },
{
    match answer {
        ActorAnswer::NoActor => Err(no_table_error(tenant, entity_type)),
        ActorAnswer::Failed(failure) => Err(
            context_text("Actor update failed", failure.message.as_str()),
        ),
        ActorAnswer::Answered(response) => {
            if response.success {
                return Ok(response);
            }
            match response.error {
                Some(error) => Err(error),
                None => Err("field update was rejected".to_owned()),
            }
        },
    }
}

/// Takes in how the write of an updated entity's projection went.
pub fn settle_update_projection(failure: Option<StoreError>) -> (r: Result<(), String>)
    ensures
        r is Err == failure is Some,
        r matches Err(e) ==> e@ == in_context(
            "query projection write failed during update"@,
            failure->0.message@,
        ),
{
    match failure {
        None => Ok(()),
        Some(e) => Err(
            context_text("query projection write failed during update", e.message.as_str()),
        ),
    }
}

/// Decides an update by the actor's answer and by how the write of the
/// projection went, which is due only for an update that was not rejected.
pub fn update_tenant_entity_fields(
    tenant: &str,
    entity_type: &str,
    answer: ActorAnswer,
    projection_failure: Option<StoreError>,
) -> (r: Result<EntityResponse, String>)
    ensures
        match answer {
            ActorAnswer::NoActor => r matches Err(e) && e@ == no_table_text(tenant@, entity_type@),
            ActorAnswer::Failed(failure) => r matches Err(e) && e@ == in_context(
                "Actor update failed"@,
                failure.message@,
            ),
            ActorAnswer::Answered(response) => if !response.success {
                r matches Err(e) && e@ == (match response.error {
                    Some(error) => error@,
                    None => "field update was rejected"@,
                })
            } else {
                match projection_failure {
                    None => r matches Ok(done) && done == response,
                    Some(failure) => r matches Err(e) && e@ == in_context(
                        "query projection write failed during update"@,
                        failure.message@,
                    ),
                }
            },
        },
{
    let response = match settle_update(tenant, entity_type, answer) {
        Ok(response) => response,
        Err(e) => {
            return Err(e);
        },
    };
    match settle_update_projection(projection_failure) {
        Ok(_) => Ok(response),
        Err(e) => Err(e),
    }
}

/// Takes in an actor's answer to a deletion. With a success, the projection and
/// the actor go: the tombstone is durable, and a projection that cannot be
/// removed does not hold the deletion up.
pub fn delete_tenant_entity(tenant: &str, entity_type: &str, answer: ActorAnswer) -> (r: Result<
    (EntityResponse, bool),
    String,
>)
    ensures
        match answer {
            ActorAnswer::NoActor => r matches Err(e) && e@ == no_table_text(tenant@, entity_type@),
            ActorAnswer::Failed(failure) => r matches Err(e) && e@ == in_context(
                "Actor delete failed"@,
                failure.message@,
            ),
            ActorAnswer::Answered(response) => r matches Ok(done) && done.0 == response && done.1
                == response.success,
        },
{
    match answer {
        ActorAnswer::NoActor => Err(no_table_error(tenant, entity_type)),
        ActorAnswer::Failed(failure) => Err(
            context_text("Actor delete failed", failure.message.as_str()),
        ),
        ActorAnswer::Answered(response) => {
            let evict: bool = response.success;
            Ok((response, evict))
        },
    }
}

/// What subscribers are told of a new entity is that entity, in its status, as created,
/// with no agent, session or intent behind it.
pub proof fn law_creations_are_told_as_they_are(
    change: EntityStateChange,
    seq: u64,
    tenant: Seq<char>,
    entity_type: Seq<char>,
    entity_id: Seq<char>,
    status: Seq<char>,
)
    requires
        tells_of_creation(change, seq, tenant, entity_type, entity_id, status),
    ensures
        change.seq == seq,
        actor_key_of(change.tenant@, change.entity_type@, change.entity_id@) == actor_key_of(
            tenant,
            entity_type,
            entity_id,
        ),
        change.entity_id@ == entity_id,
        change.entity_type@ == entity_type,
        change.tenant@ == tenant,
        change.status@ == status,
        change.action@ == "Created"@,
        change.agent_id is None && change.session_id is None && change.intent is None,
        change.observation_metadata is None,
{
}

/// A creation goes without an actor only where nothing of an actor is needed: no rules,
/// no actor behind the type, and a place for both the event and the projection.
pub proof fn law_only_plain_data_goes_without_an_actor(
    fields: JsonValue,
    actor_backed: bool,
    table: Option<TableInfo>,
    has_journal: bool,
    has_query_plane: bool,
)
    ensures
        is_plain_data(fields, actor_backed, table, has_journal, has_query_plane) <==> {
            &&& fields is Object
            &&& table is Some
            &&& !table->0.has_rules
            &&& has_journal
            &&& has_query_plane
            &&& !actor_backed
        },
{
}

/// A key that another entity holds is a conflict in the store's own words; any other
/// failure is told in its context, and is worth repeating exactly where the store says so.
pub proof fn law_store_failures_are_classified(
    error: EntityCreateError,
    context: Seq<char>,
    failure: StoreError,
)
    requires
        classifies(error, context, failure),
    ensures
        failure.refusal is DeclaredKey ==> error is DeclaredKeyConflict && detail_of(error)@
            == failure.message@,
        !(failure.refusal is DeclaredKey) && failure.transient ==> error is TransientDependency,
        !(failure.refusal is DeclaredKey) && !failure.transient ==> error is Internal,
        !(failure.refusal is DeclaredKey) ==> detail_of(error)@ == context + ": "@
            + failure.message@,
{
}

/// A failed creation through an actor is told by the kind of its failure: a type without
/// a table is no one's conflict, and only a refused first event is one.
pub proof fn law_failed_answers_are_classified(
    error: EntityCreateError,
    tenant: Seq<char>,
    entity_type: Seq<char>,
    answer: ActorAnswer,
)
    requires
        is_create_error(error, tenant, entity_type, answer),
    ensures
        !(answer is Answered),
        answer is NoActor ==> error is Internal,
        answer matches ActorAnswer::Failed(f) ==> {
            &&& detail_of(error)@ == f.message@
            &&& f.init_failure == Some(InitFailureKind::Constraint) ==> error
                is DeclaredKeyConflict
            &&& f.init_failure == Some(InitFailureKind::TransientDependency) ==> error
                is TransientDependency
            &&& f.init_failure == Some(InitFailureKind::Defect) ==> error is Internal
            &&& f.init_failure is None && f.transient ==> error is TransientDependency
            &&& f.init_failure is None && !f.transient ==> error is Internal
        },
{
}

/// A creation without an actor ends in a success with the state of the plan after one
/// event, at the number under which that event was written; nothing follows from it.
pub proof fn law_data_only_creations_end_after_one_event(
    done: (EntityResponse, EntityStateChange),
    tenant: Seq<char>,
    plan: DataOnlyCreate,
    sequence_nr: u64,
    window: usize,
    seq: u64,
)
    requires
        plan.wf(),
        ended_created(done, tenant, plan, sequence_nr, window, seq),
    ensures
        done.0.success && done.0.error is None && done.0.spec_governed,
        done.0.custom_effects@.len() == 0,
        done.0.scheduled_actions@.len() == 0,
        done.0.spawn_requests@.len() == 0,
        done.0.state.sequence_nr == sequence_nr,
        done.0.state.total_event_count == 1,
        done.0.state.events_since_snapshot == 1,
        done.0.state.status == plan.state.status,
        done.0.state.fields == plan.state.fields,
        window > 0 ==> done.0.state.events@ == seq![plan.created],
        window == 0 ==> done.0.state.events@.len() == 0,
        done.1.status@ == done.0.state.status@,
        done.1.entity_id@ == done.0.state.entity_id@,
{
    assert(Seq::<EntityEvent>::empty().push(plan.created) =~= seq![plan.created]);
}

/// A new entity is listed under its type, and nothing else in the directory changes: no
/// actor, no stamp and no other listing.
pub proof fn law_new_entities_are_listed(
    d: DirectoryModel,
    tenant: Seq<char>,
    entity_type: Seq<char>,
    entity_id: Seq<char>,
    other_key: Seq<char>,
    other_id: Seq<char>,
)
    requires
        other_key != index_key_of(tenant, entity_type) || other_id != entity_id,
    ensures
        ({
            let after = with_listing(d, tenant, entity_type, entity_id);
            &&& lists(after.index, index_key_of(tenant, entity_type), entity_id)
            &&& lists(after.index, other_key, other_id) == lists(d.index, other_key, other_id)
            &&& after.registry == d.registry
            &&& after.stamps == d.stamps
            &&& after.hydrated == d.hydrated
        }),
{
    law_other_entities_stay_listed(
        d.index,
        index_key_of(tenant, entity_type),
        entity_id,
        other_key,
        other_id,
    );
}

/// The contexts of failed writes name the write that failed, and a failed first write
/// names its entity last.
pub proof fn law_contexts_name_the_write(entity_type: Seq<char>, entity_id: Seq<char>)
    ensures
        has_prefix(
            create_context(CreateStore::Native, entity_type, entity_id),
            "native data-only create failed for "@,
        ),
        has_prefix(
            create_context(CreateStore::Journal, entity_type, entity_id),
            "failed to persist data-only Created event for "@,
        ),
        create_context(CreateStore::Native, entity_type, entity_id).skip(35) == entity_type + ":"@
            + entity_id,
        create_context(CreateStore::Journal, entity_type, entity_id).skip(46) == entity_type
            + ":"@ + entity_id,
        projection_context(CreatePath::DataOnly)
            == "query projection write failed during data-only create"@,
        projection_context(CreatePath::Actor) == "query projection write failed during create"@,
{
    reveal_strlit("native data-only create failed for ");
    reveal_strlit("failed to persist data-only Created event for ");
    let a = create_context(CreateStore::Native, entity_type, entity_id);
    let b = create_context(CreateStore::Journal, entity_type, entity_id);
    assert(a.take(35) =~= "native data-only create failed for "@);
    assert(b.take(46) =~= "failed to persist data-only Created event for "@);
    assert(a.skip(35) =~= entity_type + ":"@ + entity_id);
    assert(b.skip(46) =~= entity_type + ":"@ + entity_id);
}

} // verus!
