use temper_state::create_errors::ActorError;
use temper_state::create_errors::EntityCreateError;
use temper_state::create_errors::StoreError;
use temper_state::create_errors::StoreRefusal;
use temper_state::creation::finish_data_only_create;
use temper_state::creation::get_or_create_tenant_entity;
use temper_state::creation::plan_data_only_create;
use temper_state::creation::projects_after;
use temper_state::creation::settle_create;
use temper_state::creation::settle_create_projection;
use temper_state::creation::delete_tenant_entity;
use temper_state::creation::settle_first_write;
use temper_state::creation::get_tenant_entity_state;
use temper_state::creation::settle_update;
use temper_state::creation::settle_update_projection;
use temper_state::creation::try_create_data_only_tenant_entity;
use temper_state::creation::update_idempotency_key;
use temper_state::creation::update_tenant_entity_fields;
use temper_state::creation::ActorAnswer;
use temper_state::creation::CreatePath;
use temper_state::creation::CreateStep;
use temper_state::creation::CreateStore;
use temper_state::creation::EntityResponse;
use temper_state::directory::ActorDirectory;
use temper_state::directory::InitFailureKind;
use temper_state::entity_state::EntityEvent;
use temper_state::entity_state::EntityState;
use temper_state::initial_files::apply_synthetic_file_action;
use temper_state::initial_files::initial_file_state;
use temper_state::initial_files::push_synthetic_event;
use temper_state::initial_files::reconcile_initial_file_commit;
use temper_state::initial_files::synthetic_envelope;
use temper_state::initial_files::FileStreamContentError;
use temper_state::initial_files::ProcessedAction;
use temper_state::initial_files::Takeover;
use temper_state::json::get_field;
use temper_state::json::get_text;
use temper_state::json::JsonMember;
use temper_state::json::JsonValue;
use temper_state::tables::TableInfo;
use temper_state::timestamps::Timestamp;

fn object(members: Vec<(&str, JsonValue)>) -> JsonValue {
    let mut named: Vec<(String, JsonValue)> =
        members.into_iter().map(|(n, v)| (n.to_string(), v)).collect();
    named.sort_by(|a, b| a.0.cmp(&b.0));
    JsonValue::Object(
        named.into_iter().map(|(name, value)| JsonMember { name, value }).collect(),
    )
}

fn text(t: &str) -> JsonValue {
    JsonValue::Text(t.to_string())
}

fn now() -> Timestamp {
    Timestamp { secs: 100, nanos: 5 }
}

fn actor_error(message: &str, init_failure: Option<InitFailureKind>, transient: bool) -> ActorError {
    ActorError { message: message.to_string(), init_failure, transient }
}

fn store_error(message: &str, refusal: StoreRefusal, transient: bool) -> StoreError {
    StoreError { message: message.to_string(), refusal, transient }
}

#[test]
fn a_constraint_init_failure_becomes_a_conflict() {
    let err = actor_error(
        "failed to persist bootstrap Created event for File:fl-2: \
         duplicate declared key 'ws_path' for File: held by fl-1",
        Some(InitFailureKind::Constraint),
        false,
    );
    match EntityCreateError::from_actor_error(&err) {
        EntityCreateError::DeclaredKeyConflict { detail } => {
            assert!(detail.contains("ws_path"), "lost the key name: {detail}");
            assert!(detail.contains("fl-1"), "lost the holder id: {detail}");
        }
        other => panic!("expected a conflict, got {other:?}"),
    }
}

#[test]
fn a_dependency_init_failure_becomes_retryable() {
    let err =
        actor_error("storage error: reset", Some(InitFailureKind::TransientDependency), false);
    assert!(matches!(
        EntityCreateError::from_actor_error(&err),
        EntityCreateError::TransientDependency { .. }
    ));
}

#[test]
fn an_actor_error_that_is_not_an_init_failure_is_classified_by_transience() {
    assert!(matches!(
        EntityCreateError::from_actor_error(&actor_error("ask timed out after 5s", None, true)),
        EntityCreateError::TransientDependency { .. }
    ));
    assert!(matches!(
        EntityCreateError::from_actor_error(&actor_error("mailbox full", None, true)),
        EntityCreateError::TransientDependency { .. }
    ));
    assert!(matches!(
        EntityCreateError::from_actor_error(&actor_error("actor stopped", None, false)),
        EntityCreateError::Internal { .. }
    ));
    assert!(matches!(
        EntityCreateError::from_actor_error(&actor_error(
            "budget exceeded",
            Some(InitFailureKind::Defect),
            true
        )),
        EntityCreateError::Internal { .. }
    ));
}

#[test]
fn the_data_only_path_classifies_the_same_way() {
    let conflict = store_error(
        "duplicate declared key 'ws_path' for File: held by fl-1",
        StoreRefusal::DeclaredKey,
        false,
    );
    match EntityCreateError::from_persistence_error("create failed", &conflict) {
        EntityCreateError::DeclaredKeyConflict { detail } => {
            assert!(detail.contains("ws_path") && detail.contains("fl-1"));
        }
        other => panic!("expected a conflict, got {other:?}"),
    }
    assert!(matches!(
        EntityCreateError::from_persistence_error(
            "create failed",
            &store_error("storage error: connection reset", StoreRefusal::Other, true)
        ),
        EntityCreateError::TransientDependency { .. }
    ));
    assert!(matches!(
        EntityCreateError::from_persistence_error(
            "create failed",
            &store_error("serialization error: bad json", StoreRefusal::Other, false)
        ),
        EntityCreateError::Internal { .. }
    ));
}

#[test]
fn metric_labels_are_stable() {
    assert_eq!(
        EntityCreateError::DeclaredKeyConflict { detail: String::new() }.metric_label(),
        "declared_key_conflict"
    );
    assert_eq!(
        EntityCreateError::TransientDependency { detail: String::new() }.metric_label(),
        "transient_dependency"
    );
    assert_eq!(
        EntityCreateError::Internal { detail: String::new() }.metric_label(),
        "internal"
    );
}

#[test]
fn display_keeps_the_cause_intact_for_string_callers() {
    let err = EntityCreateError::TransientDependency {
        detail: "storage error: connection reset".to_string(),
    };
    assert_eq!(String::from(err.clone()), "storage error: connection reset");
    assert_eq!(err.message(), "storage error: connection reset");
}

fn table(has_rules: bool) -> TableInfo {
    TableInfo {
        initial_state: "Draft".to_string(),
        has_rules,
        has_timeouts: false,
        keys: Vec::new(),
        vectors: Vec::new(),
    }
}

#[test]
fn only_plain_data_is_created_without_an_actor() {
    let plain = table(false);
    let ruled = table(true);
    let plan = |fields: JsonValue, backed: bool, t: Option<&TableInfo>, journal: bool, plane: bool| {
        plan_data_only_create("t", "Note", "n-1", fields, backed, t, journal, plane, now()).is_some()
    };
    assert!(plan(object(vec![]), false, Some(&plain), true, true));
    assert!(!plan(JsonValue::Null, false, Some(&plain), true, true));
    assert!(!plan(object(vec![]), true, Some(&plain), true, true));
    assert!(!plan(object(vec![]), false, Some(&ruled), true, true));
    assert!(!plan(object(vec![]), false, None, true, true));
    assert!(!plan(object(vec![]), false, Some(&plain), false, true));
    assert!(!plan(object(vec![]), false, Some(&plain), true, false));
}

#[test]
fn plain_data_is_created_with_its_first_event() {
    let fields = object(vec![("Title", text("hello")), ("Id", text("own-id"))]);
    let plan =
        plan_data_only_create("t", "Note", "n-1", fields, false, Some(&table(false)), true, true, now())
            .expect("plain data");
    assert_eq!(plan.persistence_id, "t:Note:n-1");
    assert_eq!(get_text(&plan.state.fields, "Id"), Some("own-id".to_string()));
    assert_eq!(get_text(&plan.state.fields, "Status"), Some("Draft".to_string()));
    assert_eq!(get_text(&plan.state.fields, "Title"), Some("hello".to_string()));
    assert_eq!(plan.created.action, "Created");
    assert_eq!(plan.created.from_status, "");
    assert_eq!(plan.created.to_status, "Draft");
    assert!(get_field(&plan.created.params, "Status").is_none());
    let projected = plan.projected_state(10);
    assert_eq!(projected.sequence_nr, 1);
    assert_eq!(projected.events.len(), 1);
    assert_eq!(plan.projected_state(0).events.len(), 0);

    let mut directory = ActorDirectory::new();
    let (response, change) = finish_data_only_create(&mut directory, "t", plan, 7, 10, 42);
    assert!(response.success && response.error.is_none() && response.spec_governed);
    assert!(response.custom_effects.is_empty() && response.scheduled_actions.is_empty());
    assert!(response.spawn_requests.is_empty());
    assert_eq!(response.state.sequence_nr, 7);
    assert_eq!((response.state.total_event_count, response.state.events_since_snapshot), (1, 1));
    assert_eq!(response.state.events.len(), 1);
    assert_eq!(response.state.events[0].timestamp, now());
    assert!(directory.collection.entity_exists("t", "Note", "n-1"));
    assert_eq!(directory.active_actor_count(), 0);
    assert_eq!(
        (change.seq, change.action.as_str(), change.status.as_str(), change.tenant.as_str()),
        (42, "Created", "Draft", "t")
    );
    assert!(change.agent_id.is_none() && change.observation_metadata.is_none());
}

#[test]
fn first_writes_are_settled() {
    assert!(matches!(
        settle_first_write(CreateStore::Native, "Note", "n", Ok(3)),
        CreateStep::Written(3)
    ));
    assert!(matches!(
        settle_first_write(
            CreateStore::Journal,
            "Note",
            "n",
            Err(store_error("raced", StoreRefusal::Concurrency, true))
        ),
        CreateStep::NotEligible
    ));
    match settle_first_write(
        CreateStore::Native,
        "Note",
        "n",
        Err(store_error("down", StoreRefusal::Other, true)),
    ) {
        CreateStep::Failed(EntityCreateError::TransientDependency { detail }) => {
            assert_eq!(detail, "native data-only create failed for Note:n: down")
        }
        _ => panic!("a transient failure"),
    }
    match settle_first_write(
        CreateStore::Journal,
        "Note",
        "n",
        Err(store_error("bad", StoreRefusal::Other, false)),
    ) {
        CreateStep::Failed(EntityCreateError::Internal { detail }) => assert_eq!(
            detail,
            "failed to persist data-only Created event for Note:n: bad"
        ),
        _ => panic!("an internal failure"),
    }
}

#[test]
fn projection_failures_are_not_swallowed() {
    assert!(settle_create_projection(CreatePath::Actor, None).is_ok());
    let e = settle_create_projection(
        CreatePath::Actor,
        Some(store_error("down", StoreRefusal::Other, false)),
    )
    .unwrap_err();
    assert_eq!(e.message(), "query projection write failed during create: down");
    let e = settle_create_projection(
        CreatePath::DataOnly,
        Some(store_error("down", StoreRefusal::Other, true)),
    )
    .unwrap_err();
    assert_eq!(e.message(), "query projection write failed during data-only create: down");
    assert_eq!(e.metric_label(), "transient_dependency");
    assert!(settle_update_projection(None).is_ok());
    assert_eq!(
        settle_update_projection(Some(store_error("down", StoreRefusal::Other, true))).unwrap_err(),
        "query projection write failed during update: down"
    );
}

fn response(success: bool, error: Option<&str>) -> EntityResponse {
    EntityResponse {
        success,
        state: EntityState::initial("Note", "n", "Draft", object(vec![])),
        error: error.map(str::to_string),
        custom_effects: Vec::new(),
        scheduled_actions: Vec::new(),
        spawn_requests: Vec::new(),
        spec_governed: true,
    }
}

#[test]
fn answers_of_actors_are_settled() {
    let no_table = "No transition table for tenant 't', entity type 'Note'";
    let failed = || ActorAnswer::Failed(actor_error("boom", None, false));

    match settle_create("t", "Note", "n", 1, ActorAnswer::NoActor) {
        Err(EntityCreateError::Internal { detail }) => assert_eq!(detail, no_table),
        _ => panic!("no table"),
    }
    assert!(matches!(
        settle_create("t", "Note", "n", 1, failed()),
        Err(EntityCreateError::Internal { .. })
    ));
    let (_, change) =
        settle_create("t", "Note", "n", 9, ActorAnswer::Answered(response(true, None))).ok().unwrap();
    assert_eq!((change.seq, change.status.as_str()), (9, "Draft"));

    assert_eq!(get_tenant_entity_state("t", "Note", ActorAnswer::NoActor).err().unwrap(), no_table);
    assert_eq!(get_tenant_entity_state("t", "Note", failed()).err().unwrap(), "Actor query failed: boom");
    assert!(get_tenant_entity_state("t", "Note", ActorAnswer::Answered(response(false, None))).is_ok());

    assert_eq!(settle_update("t", "Note", ActorAnswer::NoActor).err().unwrap(), no_table);
    assert_eq!(settle_update("t", "Note", failed()).err().unwrap(), "Actor update failed: boom");
    assert_eq!(
        settle_update("t", "Note", ActorAnswer::Answered(response(false, Some("no")))).err().unwrap(),
        "no"
    );
    assert_eq!(
        settle_update("t", "Note", ActorAnswer::Answered(response(false, None))).err().unwrap(),
        "field update was rejected"
    );
    assert!(settle_update("t", "Note", ActorAnswer::Answered(response(true, None))).is_ok());

    assert_eq!(delete_tenant_entity("t", "Note", ActorAnswer::NoActor).err().unwrap(), no_table);
    assert_eq!(delete_tenant_entity("t", "Note", failed()).err().unwrap(), "Actor delete failed: boom");
    assert!(delete_tenant_entity("t", "Note", ActorAnswer::Answered(response(true, None))).ok().unwrap().1);
    assert!(!delete_tenant_entity("t", "Note", ActorAnswer::Answered(response(false, None))).ok().unwrap().1);

    assert_eq!(update_idempotency_key(Some("k".to_string()), "fresh"), "k");
    assert_eq!(update_idempotency_key(None, "fresh"), "field-update:fresh");
}

// ---------------------------------------------------------------------------
// Files
// ---------------------------------------------------------------------------

fn event(action: &str, params: JsonValue) -> EntityEvent {
    EntityEvent {
        action: action.to_string(),
        from_status: "Created".to_string(),
        to_status: "Ready".to_string(),
        timestamp: now(),
        params,
        idempotency_key: None,
    }
}

fn version_params() -> JsonValue {
    object(vec![
        ("content_hash", text("abc")),
        ("mime_type", text("text/plain")),
        ("version_number", JsonValue::Integer(1)),
        ("previous_version_id", text("")),
        ("created_by", text("agent-x")),
    ])
}

fn declared_params() -> JsonValue {
    object(vec![("content_hash", text("abc")), ("mime_type", text("text/plain"))])
}

#[test]
fn kernel_synthesized_params_survive_an_under_declared_file_spec() {
    let mut state = initial_file_state("fl-1", "Created", object(vec![]));
    state.fields = declared_params();
    let processed = ProcessedAction {
        success: true,
        error: None,
        event: Some(event("StreamUpdated", declared_params())),
        overflow_blobs: 0,
    };
    let event =
        apply_synthetic_file_action(&mut state, "StreamUpdated", &version_params(), processed)
            .expect("stream updated");
    assert_eq!(get_text(&state.fields, "content_hash"), Some("abc".to_string()));
    assert!(matches!(get_field(&state.fields, "version_number"), Some(JsonValue::Integer(1))));
    assert_eq!(get_text(&state.fields, "created_by"), Some("agent-x".to_string()));
    assert!(matches!(get_field(&event.params, "version_number"), Some(JsonValue::Integer(1))));
    assert_eq!(get_text(&event.params, "created_by"), Some("agent-x".to_string()));
}

#[test]
fn create_params_are_still_filtered() {
    let mut state = initial_file_state("fl-1", "Created", object(vec![]));
    state.fields = object(vec![("name", text("readme"))]);
    let params = object(vec![("name", text("readme")), ("smuggled", text("x"))]);
    let processed = ProcessedAction {
        success: true,
        error: None,
        event: Some(event("Create", object(vec![("name", text("readme"))]))),
        overflow_blobs: 0,
    };
    apply_synthetic_file_action(&mut state, "Create", &params, processed).expect("create");
    assert_eq!(get_text(&state.fields, "name"), Some("readme".to_string()));
    assert!(get_field(&state.fields, "smuggled").is_none());
}

#[test]
fn server_made_values_win() {
    let mut state = initial_file_state("fl-1", "Created", object(vec![]));
    state.fields = object(vec![
        ("content_hash", text("old")),
        ("name", text("readme")),
        ("version_number", JsonValue::Integer(7)),
    ]);
    let processed = ProcessedAction {
        success: true,
        error: None,
        event: Some(event("StreamUpdated", object(vec![]))),
        overflow_blobs: 0,
    };
    apply_synthetic_file_action(&mut state, "StreamUpdated", &version_params(), processed)
        .expect("stream updated");
    assert_eq!(get_text(&state.fields, "content_hash"), Some("abc".to_string()));
    assert_eq!(get_text(&state.fields, "name"), Some("readme".to_string()));
    assert!(matches!(get_field(&state.fields, "version_number"), Some(JsonValue::Integer(1))));
}

#[test]
fn failed_actions_are_told_apart() {
    let fail = |success: bool, error: Option<&str>, event: Option<EntityEvent>, overflow: usize| {
        let mut state = initial_file_state("fl-1", "Created", object(vec![]));
        apply_synthetic_file_action(
            &mut state,
            "Create",
            &object(vec![]),
            ProcessedAction {
                success,
                error: error.map(str::to_string),
                event,
                overflow_blobs: overflow,
            },
        )
        .unwrap_err()
    };
    let e = fail(true, None, None, 1);
    assert!(matches!(e, FileStreamContentError::State(_)));
    assert_eq!(
        e.message(),
        "File.Create produced field-overflow blobs on the atomic initial content path"
    );
    let e = fail(false, Some("guard"), None, 0);
    assert!(matches!(e, FileStreamContentError::ActionRejected(_)));
    assert_eq!(e.message(), "guard");
    assert_eq!(fail(false, None, None, 0).message(), "File.Create rejected");
    assert_eq!(
        fail(true, None, None, 0).message(),
        "File.Create succeeded without producing a durable event"
    );
}

#[test]
fn synthetic_events_are_numbered_and_windowed() {
    let mut state = initial_file_state("fl-1", "Created", object(vec![]));
    assert_eq!(get_text(&state.fields, "Id"), Some("fl-1".to_string()));
    assert_eq!(state.entity_type, "File");
    let mut events: Vec<EntityEvent> = Vec::new();
    for name in ["Create", "StreamUpdated", "Seal"] {
        push_synthetic_event(&mut state, &mut events, event(name, object(vec![])), 2);
    }
    assert_eq!(state.sequence_nr, 3);
    assert_eq!(events.len(), 3);
    let recent: Vec<&str> = state.events.iter().map(|e| e.action.as_str()).collect();
    assert_eq!(recent, vec!["StreamUpdated", "Seal"]);
    state.sequence_nr = u64::MAX;
    push_synthetic_event(&mut state, &mut events, event("Again", object(vec![])), 2);
    assert_eq!(state.sequence_nr, u64::MAX);

    let envelope = synthetic_envelope("t:File:fl-1", 2, &events[1], (1, 2, 3));
    assert_eq!(envelope.sequence_nr, 2);
    assert_eq!(envelope.event_type, "StreamUpdated");
    assert_eq!((envelope.event_id, envelope.causation_id, envelope.correlation_id), (1, 2, 3));
    assert_eq!(envelope.actor_id, "t:File:fl-1");
    assert_eq!(envelope.timestamp, now());
}

#[test]
fn the_first_error_after_a_commit_is_told() {
    let settle = |takeover: Takeover, failure: Option<&str>| {
        let mut directory = ActorDirectory::new();
        let (result, release) =
            reconcile_initial_file_commit(&mut directory, "t", "fl-1", takeover, failure);
        assert!(directory.collection.entity_exists("t", "File", "fl-1"));
        (result.err().map(|e| e.message()), release)
    };
    assert_eq!(settle(Takeover::Drained { materialized: true }, None), (None, false));
    assert_eq!(
        settle(Takeover::Drained { materialized: true }, Some("down")),
        (
            Some(
                "query projection write failed during atomic File initial content create: down"
                    .to_string()
            ),
            false
        )
    );
    assert_eq!(
        settle(Takeover::Drained { materialized: false }, Some("down")),
        (
            Some(
                "File('fl-1') committed initial content but failed to materialize its \
                 authoritative actor"
                    .to_string()
            ),
            true
        )
    );
    assert_eq!(
        settle(Takeover::NotDrained, None),
        (
            Some(
                "File('fl-1') committed initial content but failed to drain its stale actor"
                    .to_string()
            ),
            false
        )
    );
}

#[test]
fn data_only_creations_are_decided_by_their_writes() {
    let create = |store, written, projection_failure| {
        let fields = object(vec![("Title", text("hello"))]);
        let plan = plan_data_only_create(
            "t",
            "Note",
            "n",
            fields,
            false,
            Some(&table(false)),
            true,
            true,
            now(),
        )
        .expect("plain data");
        let mut directory = ActorDirectory::new();
        let done = try_create_data_only_tenant_entity(
            &mut directory,
            "t",
            plan,
            store,
            written,
            projection_failure,
            10,
            1,
        );
        (
            done.map(|d| d.map(|(response, _)| response.state.sequence_nr)).map_err(|e| e.message()),
            directory.collection.entity_exists("t", "Note", "n"),
        )
    };
    let down = || Some(store_error("down", StoreRefusal::Other, false));
    let raced = store_error("raced", StoreRefusal::Concurrency, false);
    assert_eq!(create(CreateStore::Native, Ok(4), None), (Ok(Some(4)), true));
    assert_eq!(create(CreateStore::Native, Ok(4), down()), (Ok(Some(4)), true));
    assert_eq!(create(CreateStore::Journal, Ok(4), None), (Ok(Some(4)), true));
    assert_eq!(create(CreateStore::Journal, Err(raced), None), (Ok(None), false));
    assert_eq!(
        create(CreateStore::Journal, Ok(4), down()),
        (Err("query projection write failed during data-only create: down".to_string()), false)
    );
    assert_eq!(
        create(CreateStore::Native, Err(store_error("bad", StoreRefusal::Other, false)), None),
        (Err("native data-only create failed for Note:n: bad".to_string()), false)
    );
    assert!(projects_after(CreateStore::Journal, &Ok(1)));
    assert!(!projects_after(CreateStore::Native, &Ok(1)));
}

#[test]
fn creations_are_told_before_their_projection() {
    let (change, done) = get_or_create_tenant_entity(
        "t",
        "Note",
        "n",
        5,
        ActorAnswer::Answered(response(true, None)),
        Some(store_error("down", StoreRefusal::Other, false)),
    );
    assert_eq!(change.unwrap().seq, 5);
    assert_eq!(
        done.err().unwrap().message(),
        "query projection write failed during create: down"
    );
    let (change, done) =
        get_or_create_tenant_entity("t", "Note", "n", 5, ActorAnswer::NoActor, None);
    assert!(change.is_none());
    assert_eq!(
        done.err().unwrap().message(),
        "No transition table for tenant 't', entity type 'Note'"
    );
    let (_, done) = get_or_create_tenant_entity(
        "t",
        "Note",
        "n",
        5,
        ActorAnswer::Answered(response(true, None)),
        None,
    );
    assert!(done.is_ok());
}

#[test]
fn updates_are_decided_by_actor_and_projection() {
    let update = |answer, failure| {
        update_tenant_entity_fields("t", "Note", answer, failure).map(|r| r.success)
    };
    let down = || Some(store_error("down", StoreRefusal::Other, true));
    assert_eq!(update(ActorAnswer::Answered(response(true, None)), None), Ok(true));
    assert_eq!(
        update(ActorAnswer::Answered(response(true, None)), down()),
        Err("query projection write failed during update: down".to_string())
    );
    assert_eq!(
        update(ActorAnswer::Answered(response(false, None)), down()),
        Err("field update was rejected".to_string())
    );
    assert_eq!(
        update(ActorAnswer::Failed(actor_error("slow", None, true)), None),
        Err("Actor update failed: slow".to_string())
    );
}
