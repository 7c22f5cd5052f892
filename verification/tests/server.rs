use temper_state::entity_index::CollectionIndex;
use temper_state::entity_index::EntityIndex;
use temper_state::entity_index::ListPlan;
use temper_state::gates::TenantGate;
use temper_state::json::copy_json;
use temper_state::json::insert_if_absent;
use temper_state::json::json_equal;
use temper_state::json::JsonMember;
use temper_state::json::JsonValue;
use temper_state::keys::actor_key;
use temper_state::keys::index_key;
use temper_state::keys::parse_actor_key;
use temper_state::keys::split_key;
use temper_state::observe_events::DesignTimeEvent;
use temper_state::replay_parity::EntityRef;
use temper_state::server_state::Admission;
use temper_state::server_state::ServerState;
use temper_state::sorted::SortedMap;
use temper_state::sorted::SortedSet;
use temper_state::tables::no_table_error;
use temper_state::tables::DeclaredPath;
use temper_state::tables::SpecTables;
use temper_state::tables::TableInfo;
use temper_state::timestamps::Timestamp;

fn now() -> Timestamp {
    Timestamp { secs: 100, nanos: 0 }
}

fn table(initial: &str, has_timeouts: bool) -> TableInfo {
    TableInfo {
        initial_state: initial.to_string(),
        has_rules: true,
        has_timeouts,
        keys: vec![DeclaredPath { name: "by_owner".to_string(), columns: vec!["Owner".to_string()] }],
        vectors: Vec::new(),
    }
}

fn tables() -> SpecTables {
    let mut t = SpecTables::new();
    t.registered.insert(("t".to_string(), "Doc".to_string()), table("Draft", true));
    t.shared.insert("Doc".to_string(), table("Shared", false));
    t
}

fn state() -> ServerState {
    ServerState::new(tables(), 8, 2)
}

fn open() -> Admission<'static> {
    Admission { gate: TenantGate { closed: false, generation: 0 }, lease: None }
}

fn entity(entity_type: &str, entity_id: &str) -> EntityRef {
    EntityRef { entity_type: entity_type.to_string(), entity_id: entity_id.to_string() }
}

#[test]
fn actors_are_spawned_once() {
    let mut s = state();
    assert_eq!(s.get_or_spawn_tenant_actor("t", "Doc", "1", open(), now(), || 7), Some((7, true)));
    assert_eq!(s.get_or_spawn_tenant_actor("t", "Doc", "1", open(), now(), || 8), Some((7, false)));
    assert_eq!((s.active_actor_count(), s.active_entity_count()), (1, 1));
    assert!(s.entity_exists("t", "Doc", "1"));
    assert_eq!(s.list_entity_ids("t", "Doc"), vec!["1".to_string()]);
    assert_eq!(s.remove_entity("t", "Doc", "1"), Some(7));
    assert_eq!(s.remove_entity("t", "Doc", "1"), None);
    assert!(!s.entity_exists("t", "Doc", "1"));
}

#[test]
fn actors_need_a_table_and_an_open_gate() {
    let mut s = state();
    assert_eq!(s.get_or_spawn_tenant_actor("t", "Nothing", "1", open(), now(), || 7), None);
    let closed = Admission { gate: TenantGate { closed: true, generation: 1 }, lease: None };
    assert_eq!(
        s.get_or_spawn_tenant_actor_with_fields("t", "Doc", "1", closed, now(), || 7),
        None
    );
    assert_eq!(s.get_or_spawn_actor("Doc", "1", open(), now(), || 7), Some((7, true)));
    assert!(s.entity_exists("default", "Doc", "1"));
}

#[test]
fn the_index_is_filled_from_the_store() {
    let mut s = state();
    assert!(matches!(s.list_entity_ids_lazy("t", "Doc", true), ListPlan::Scan));
    let timed = s.populate_index_from_store("t", &vec![entity("Doc", "2"), entity("Other", "3")]);
    assert_eq!(timed, vec![0]);
    assert!(matches!(
        s.list_entity_ids_lazy("t", "Doc", true),
        ListPlan::Serve(ids) if ids == vec!["2".to_string()]
    ));
    assert_eq!(s.populate_index_from_store_by_type("t", "Order", &vec!["9".to_string()]), 1);
    assert!(s.entity_exists("t", "Order", "9"));
    let hydrated =
        s.hydrate_from_store("u", &vec![entity("Doc", "4"), entity("Doc", "5")], &vec![true, false]);
    assert_eq!(hydrated, 1);
    assert!(matches!(s.list_entity_ids_lazy("u", "Doc", true), ListPlan::Serve(_)));
}

#[test]
fn metadata_is_kept_by_tenant() {
    let mut s = state();
    s.enrich_metadata("t", "submit", "first");
    s.enrich_metadata("u", "submit", "second");
    let hint = |tenant: &str| s.agent_hints.get(&tenant.to_string()).unwrap().hint("submit");
    assert_eq!(hint("t"), Some("first".to_string()));
    assert_eq!(hint("u"), Some("second".to_string()));
    s.state_cache.record("t", "Doc", "1", "Open", now());
    assert_eq!(s.cached_entity_status("t", "Doc", "1"), Some("Open".to_string()));
    assert_eq!(s.cached_entity_status("t", "Doc", "2"), None);
    let answered = |text: &str| Some(text.to_string());
    assert_eq!(s.resolve_entity_status("t", "Doc", "1", answered("Shut"), now()), answered("Open"));
    assert_eq!(s.resolve_entity_status("t", "Doc", "2", None, now()), None);
    assert_eq!(s.cached_entity_status("t", "Doc", "2"), None);
    assert_eq!(s.resolve_entity_status("t", "Doc", "2", answered("Shut"), now()), answered("Shut"));
    assert_eq!(s.cached_entity_status("t", "Doc", "2"), answered("Shut"));
    for i in 0..3 {
        s.push_design_time_event(DesignTimeEvent {
            kind: format!("k{i}"),
            entity_type: "Doc".to_string(),
            tenant: "t".to_string(),
            summary: String::new(),
            level: None,
            passed: None,
            timestamp: String::new(),
            step_number: None,
            total_steps: None,
        });
    }
    assert_eq!(s.design_time_log.len(), 2);
    assert_eq!(s.design_time_log.at(0).kind, "k1");
}

#[test]
fn events_are_logged_once_they_are_written() {
    let event = || DesignTimeEvent {
        kind: "verify".to_string(),
        entity_type: "Doc".to_string(),
        tenant: "t".to_string(),
        summary: String::new(),
        level: None,
        passed: None,
        timestamp: String::new(),
        step_number: None,
        total_steps: None,
    };
    let mut s = state();
    assert_eq!(
        s.emit_design_time_event(event(), Some(Err("down".to_string()))),
        Err("failed to persist design-time event verify for t/Doc: down".to_string())
    );
    assert_eq!(s.design_time_log.len(), 0);
    assert_eq!(s.emit_design_time_event(event(), Some(Ok(()))), Ok(()));
    assert_eq!(s.emit_design_time_event(event(), None), Ok(()));
    assert_eq!(s.design_time_log.len(), 2);
}

#[test]
fn entities_are_counted_by_tenant() {
    let mut s = state();
    s.populate_index_from_store("t", &vec![entity("Doc", "1"), entity("Order", "1")]);
    s.populate_index_from_store("u", &vec![entity("Doc", "1")]);
    let counts = s.active_entity_counts_by_tenant();
    assert_eq!(counts.get(&"t".to_string()), Some(&2));
    assert_eq!(counts.get(&"u".to_string()), Some(&1));
    assert_eq!(tables().keyed_types("t").to_strings(), vec!["Doc".to_string()]);
    assert!(tables().keyed_types("u").to_strings().is_empty());
}

#[test]
fn own_tables_win() {
    let t = tables();
    assert_eq!(t.transition_table_for("t", "Doc").unwrap().initial_state, "Draft");
    assert_eq!(t.transition_table_for("u", "Doc").unwrap().initial_state, "Shared");
    assert!(t.transition_table_for("t", "Order").is_none());
    assert!(t.has_registered_spec("t", "Doc") && !t.has_registered_spec("u", "Doc"));
    assert!(t.is_entity_type_governed("t", "Doc"));
    assert_eq!(t.declared_keys_for("t", "Doc").len(), 1);
    assert_eq!(t.declared_keys_for("t", "Order").len(), 0);
    assert_eq!(t.declared_vectors_for("t", "Doc").len(), 0);
    assert_eq!(t.initial_entity_status("t", "Doc"), Ok("Draft".to_string()));
    assert_eq!(t.initial_entity_status("t", "Order"), Err(no_table_error("t", "Order")));
    assert_eq!(t.timed_entities("t", &vec![entity("Order", "1"), entity("Doc", "2")]), vec![1]);
}

#[test]
fn keys_read_back() {
    assert_eq!(actor_key("t", "Doc", "a:b"), "t:Doc:a:b");
    assert_eq!(index_key("t", "Doc"), "t:Doc");
    let parts = parse_actor_key("t:Doc:a:b").unwrap();
    assert_eq!((parts.tenant, parts.entity_type, parts.entity_id), ("t", "Doc", "a:b"));
    assert!(parse_actor_key("t:Doc").is_none());
    assert_eq!(split_key("a:b:c"), Some(("a", "b:c")));
    assert_eq!(split_key("abc"), None);
}

#[test]
fn unlisting_undoes_listing() {
    let mut index = EntityIndex::new();
    index.insert("t:Doc", "1");
    index.insert_all("t:Order", &vec!["b".to_string(), "a".to_string(), "b".to_string()]);
    index.insert("u:Doc", "1");
    assert_eq!(index.count(), 4);
    assert_eq!(index.list("t:Order"), vec!["a".to_string(), "b".to_string()]);
    let counts = index.counts_by_tenant();
    assert_eq!(counts.get(&"t".to_string()), Some(&3));
    assert_eq!(counts.get(&"u".to_string()), Some(&1));
    index.remove("t:Doc", "1");
    assert!(!index.contains("t:Doc", "1"));
    assert!(index.contains("u:Doc", "1"));
    assert_eq!(index.counts_by_tenant().len(), 2);
    index.remove("u:Doc", "1");
    assert_eq!(index.counts_by_tenant().len(), 1);
}

#[test]
fn scans_hide_no_entity() {
    let mut c = CollectionIndex::new();
    assert!(matches!(c.plan_listing("t", "Doc", false), ListPlan::Serve(ids) if ids.is_empty()));
    assert!(matches!(c.plan_listing("t", "Doc", true), ListPlan::Scan));
    c.mark_types_hydrated("t", &vec![entity("Doc", "1")]);
    assert!(matches!(c.plan_listing("t", "Doc", true), ListPlan::Serve(_)));
    c.populate_index_from_store("t", &vec![entity("Doc", "1"), entity("Doc", "2")]);
    assert_eq!(c.populate_index_from_store_by_type("t", "Doc", &vec!["3".to_string()]), 1);
    assert_eq!(c.list_entity_ids("t", "Doc").len(), 3);
    assert!(c.entity_exists("t", "Doc", "2"));
}

#[test]
fn json_is_compared_by_content() {
    let member = |name: &str, value| JsonMember { name: name.to_string(), value };
    let a = JsonValue::Object(vec![
        member("x", JsonValue::Integer(1)),
        member("y", JsonValue::Array(vec![JsonValue::Null, JsonValue::Real("1.5".to_string())])),
    ]);
    let b = copy_json(&a);
    assert!(json_equal(&a, &b) && json_equal(&b, &a));
    assert!(!json_equal(&a, &JsonValue::Object(Vec::new())));
    assert!(!json_equal(&JsonValue::Bool(true), &JsonValue::Bool(false)));
    let mut members = vec![member("x", JsonValue::Null)];
    insert_if_absent(&mut members, "x", JsonValue::Bool(true));
    insert_if_absent(&mut members, "z", JsonValue::Bool(true));
    assert_eq!(members.len(), 2);
    assert!(json_equal(&members[0].value, &JsonValue::Null));
}

#[test]
fn sorted_collections_stay_sorted() {
    let mut m = SortedMap::new();
    assert_eq!(m.insert("b".to_string(), 1), None);
    assert_eq!(m.insert("a".to_string(), 2), None);
    assert_eq!(m.insert("b".to_string(), 3), Some(1));
    assert_eq!(m.keys(), vec!["a".to_string(), "b".to_string()]);
    assert_eq!((m.len(), *m.value_at(1), m.key_at(0).as_str()), (2, 3, "a"));
    assert_eq!(m.pop_first(), Some(("a".to_string(), 2)));
    assert_eq!(m.remove(&"b".to_string()), Some(3));
    assert_eq!(m.remove(&"b".to_string()), None);
    let mut s: SortedSet<(Option<String>, String)> = SortedSet::new();
    assert!(s.insert((Some("a".to_string()), "z".to_string())));
    assert!(s.insert((None, "z".to_string())));
    assert!(!s.insert((None, "z".to_string())));
    assert!(s.at(0).0.is_none());
    assert!(s.remove(&(None, "z".to_string())));
    assert!(!s.contains(&(None, "z".to_string())));
}
