use temper_state::evolution::evolution_store;
use temper_state::evolution::get_evolution_record;
use temper_state::evolution::insert_evolution_record;
use temper_state::evolution::list_evolution_records;
use temper_state::evolution::EvolutionRecordRow;
use temper_state::evolution::EvolutionStore;
use temper_state::metrics::duration_bucket;
use temper_state::metrics::MetricsCollector;
use temper_state::observe_events::BoundedLog;
use temper_state::observe_events::DesignTimeEvent;
use temper_state::persistence::constraints_failure;
use temper_state::persistence::design_time_failure;
use temper_state::persistence::load_tenant_secrets;
use temper_state::persistence::persist_spec_verification;
use temper_state::persistence::redis_ephemeral_error;
use temper_state::persistence::route;
use temper_state::persistence::secrets_load_failure;
use temper_state::persistence::store_failure;
use temper_state::persistence::tenant_metadata_backend;
use temper_state::persistence::trajectory_failure;
use temper_state::persistence::verification_failure;
use temper_state::persistence::verification_summary;
use temper_state::persistence::MetadataOperation;
use temper_state::persistence::NamedStore;
use temper_state::persistence::Route;
use temper_state::persistence::read_secret;
use temper_state::persistence::SecretReading;
use temper_state::persistence::StorageStack;
use temper_state::persistence::StoreOperation;
use temper_state::persistence::StoredSecret;
use temper_state::persistence::TenantMetadataBackend;
use temper_state::persistence::TrajectoryEntry;
use temper_state::sorted::SortedMap;
use temper_state::spec_catalog::dropped_source;
use temper_state::spec_catalog::dropped_types;
use temper_state::spec_catalog::persist_verified_spec_catalog_update;
use temper_state::spec_catalog::plan_declarations;
use temper_state::spec_catalog::stage_spec;
use temper_state::spec_catalog::DroppedSource;
use temper_state::spec_catalog::DroppedTypes;
use temper_state::verification_gate::VerificationLevel;
use temper_state::verification_gate::VerificationResult;
use temper_state::wasm_modules::artifact_failure;
use temper_state::wasm_modules::check_wasm_hash;
use temper_state::wasm_modules::compile_failure;
use temper_state::wasm_modules::effective_hash;
use temper_state::wasm_modules::ensure_wasm_module_cached;
use temper_state::wasm_modules::invocation_failure;
use temper_state::wasm_modules::lazy_load_failure;
use temper_state::wasm_modules::load_recent_wasm_invocations;
use temper_state::wasm_modules::missing_artifact_error;
use temper_state::wasm_modules::plan_wasm_lookup;
use temper_state::wasm_modules::plan_wasm_upsert;
use temper_state::wasm_modules::recovery_failure;
use temper_state::wasm_modules::resolve_wasm_artifact_bytes;
use temper_state::wasm_modules::sources_failure;
use temper_state::wasm_modules::stored_wasm_module;
use temper_state::wasm_modules::wasm_module_sources;
use temper_state::wasm_modules::NamedWasmModule;
use temper_state::wasm_modules::TenantWasmModule;
use temper_state::wasm_modules::WasmBytes;
use temper_state::wasm_modules::WasmInvocationEntry;
use temper_state::wasm_modules::WasmLookup;
use temper_state::wasm_modules::WasmModuleRegistry;
use temper_state::wasm_modules::WasmModuleRow;
use temper_state::wasm_modules::WasmReadings;

#[test]
fn turso_secret_operations_are_explicitly_unsupported() {
    let backend = tenant_metadata_backend(Some(StorageStack {
        postgres: false,
        turso: true,
        redis: false,
    }));
    let refusal = |operation| match route(operation, backend) {
        Route::Refused(text) => text,
        _ => panic!("turso keeps no secrets"),
    };
    let upsert_err = refusal(MetadataOperation::PersistSecret);
    assert!(upsert_err.contains("not supported"));
    let delete_err = refusal(MetadataOperation::DeleteSecret);
    assert!(delete_err.contains("not supported"));
    let load_err = refusal(MetadataOperation::LoadSecrets);
    assert!(load_err.contains("not supported"));
}

#[test]
fn operations_go_to_their_store() {
    let stack = |postgres, turso, redis| tenant_metadata_backend(Some(StorageStack { postgres, turso, redis }));
    assert_eq!(tenant_metadata_backend(None), None);
    assert_eq!(stack(false, false, false), None);
    assert_eq!(stack(true, true, true), Some(TenantMetadataBackend::Postgres));
    assert_eq!(stack(false, true, true), Some(TenantMetadataBackend::Turso));
    assert_eq!(stack(false, false, true), Some(TenantMetadataBackend::Redis));
    assert!(matches!(route(MetadataOperation::PersistSpec, None), Route::Nothing));
    assert!(matches!(
        route(MetadataOperation::PersistSecret, Some(TenantMetadataBackend::Postgres)),
        Route::Postgres
    ));
    assert!(matches!(
        route(MetadataOperation::PersistSpec, Some(TenantMetadataBackend::Turso)),
        Route::Turso
    ));
    assert!(matches!(
        route(MetadataOperation::LoadWasmSources, Some(TenantMetadataBackend::Redis)),
        Route::Nothing
    ));
    assert!(matches!(
        route(MetadataOperation::PersistVerification, Some(TenantMetadataBackend::Redis)),
        Route::Nothing
    ));
    let failed = |backend| {
        persist_spec_verification(backend, "t", "Doc", "passed", Err("down".to_string()))
    };
    assert_eq!(failed(Some(TenantMetadataBackend::Redis)), Ok(()));
    assert_eq!(failed(None), Ok(()));
    assert_eq!(
        failed(Some(TenantMetadataBackend::Postgres)).unwrap_err(),
        "failed to persist spec verification status for t/Doc (passed): down"
    );
    assert_eq!(
        failed(Some(TenantMetadataBackend::Turso)).unwrap_err(),
        "failed to persist spec verification status for t/Doc (passed) in turso: down"
    );
    assert!(matches!(
        route(MetadataOperation::StageSpec, Some(TenantMetadataBackend::Redis)),
        Route::Refused(text) if text == redis_ephemeral_error("Spec source staging")
    ));
    assert_eq!(
        redis_ephemeral_error("X"),
        "X is not supported on redis backend (explicit ephemeral mode: metadata is in-memory only)"
    );
}

#[test]
fn failures_name_what_failed() {
    assert_eq!(
        store_failure(StoreOperation::UpsertSpec, NamedStore::Postgres, "t", "Doc", "down"),
        "failed to upsert spec t/Doc in postgres: down"
    );
    assert_eq!(
        store_failure(StoreOperation::DeleteSecret, NamedStore::Postgres, "t", "K", "down"),
        "failed to delete secret t/K: down"
    );
    assert_eq!(
        store_failure(StoreOperation::UpsertWasmModule, NamedStore::Turso, "t", "m", "down"),
        "failed to upsert WASM module t/m in turso: down"
    );
    for text in [
        constraints_failure(true, NamedStore::Postgres, "t", "down"),
        constraints_failure(false, NamedStore::Turso, "t", "down"),
        verification_failure(NamedStore::Turso, "t", "Doc", "passed", "down"),
        secrets_load_failure("t", "down"),
    ] {
        assert!(text.contains('t') && text.ends_with("down"), "{text}");
    }
    assert_ne!(
        constraints_failure(true, NamedStore::Turso, "t", "down"),
        constraints_failure(false, NamedStore::Turso, "t", "down")
    );
    let entry = TrajectoryEntry {
        timestamp: "now".to_string(),
        tenant: "t".to_string(),
        entity_type: "Doc".to_string(),
        entity_id: "d".to_string(),
        action: "Open".to_string(),
        success: true,
        from_status: None,
        to_status: None,
        error: None,
        agent_id: None,
        session_id: None,
    };
    assert_eq!(
        trajectory_failure(TenantMetadataBackend::Turso, &entry, "down"),
        "failed to persist trajectory entry for t/Doc/d action Open in turso: down"
    );
    let event = DesignTimeEvent {
        kind: "verify".to_string(),
        entity_type: "Doc".to_string(),
        tenant: "t".to_string(),
        summary: "s".to_string(),
        level: None,
        passed: None,
        timestamp: "now".to_string(),
        step_number: None,
        total_steps: None,
    };
    assert!(design_time_failure(&event, "down").ends_with("down"));
}

#[test]
fn verification_is_summed_up() {
    let none = verification_summary(None);
    assert!(!none.verified && none.levels_passed.is_none() && none.levels_total.is_none());
    let level = |passed| VerificationLevel {
        level: "L".to_string(),
        passed,
        summary: String::new(),
        details: None,
    };
    let some = verification_summary(Some(&VerificationResult {
        all_passed: false,
        levels: vec![level(true), level(false), level(true)],
    }));
    assert!(!some.verified);
    assert_eq!((some.levels_passed, some.levels_total), (Some(2), Some(3)));
}

#[test]
fn secrets_load_up_to_the_first_that_is_no_text() {
    let secret = |name: &str, reading| StoredSecret { key_name: name.to_string(), reading };
    let (places, end) = load_tenant_secrets(&vec![
        secret("A", SecretReading::Text("a".to_string())),
        secret("B", SecretReading::Undecrypted),
        secret("C", SecretReading::Text("c".to_string())),
    ]);
    assert_eq!(places, vec![0, 2]);
    assert_eq!(end, Ok(2));
    let (places, end) = load_tenant_secrets(&vec![
        secret("A", SecretReading::Text("a".to_string())),
        secret("B", SecretReading::NoText("bad byte".to_string())),
        secret("C", SecretReading::Text("c".to_string())),
    ]);
    assert_eq!(places, vec![0]);
    assert_eq!(end, Err("secret B is not valid UTF-8: bad byte".to_string()));
}

#[test]
fn secrets_are_read_as_text() {
    assert!(matches!(read_secret(None), SecretReading::Undecrypted));
    assert!(matches!(
        read_secret(Some(vec![0xc3, 0xa9])),
        SecretReading::Text(text) if text == "\u{e9}"
    ));
    assert!(matches!(
        read_secret(Some(vec![0x61, 0xff])),
        SecretReading::NoText(reason) if !reason.is_empty()
    ));
}

#[test]
fn staged_specs_are_versioned() {
    let first = stage_spec(None, "h1", "<x/>");
    assert_eq!(first.version, 1);
    let again = stage_spec(Some(first), "h1", "<x/>");
    assert_eq!(again.version, 1);
    let changed = stage_spec(Some(again), "h1", "<y/>");
    assert_eq!(changed.version, 2);
    let changed = stage_spec(Some(changed), "h2", "<y/>");
    assert_eq!((changed.version, changed.content_hash.as_str()), (3, "h2"));
}

#[test]
fn publications_declare_and_drop() {
    let mut incoming = SortedMap::new();
    incoming.insert("Doc".to_string(), "f".to_string());
    let list = |names: &[&str]| names.iter().map(|s| s.to_string()).collect::<Vec<String>>();
    let gone = dropped_types(
        &incoming,
        &list(&["Zeta", "Doc"]),
        DroppedTypes::Declared(&list(&["Doc", "Alpha"])),
    );
    assert_eq!(gone.to_strings(), list(&["Alpha", "Zeta"]));
    assert_eq!(
        dropped_types(&incoming, &list(&[]), DroppedTypes::Reported(&list(&["Old"]))).to_strings(),
        list(&["Old"])
    );
    assert_eq!(dropped_types(&incoming, &list(&[]), DroppedTypes::Unknown).len(), 0);
    let declared = plan_declarations(&incoming, &gone);
    let flat: Vec<(&str, &str)> =
        declared.iter().map(|d| (d.entity_type.as_str(), d.fingerprint.as_str())).collect();
    assert_eq!(flat, vec![("Doc", "f"), ("Alpha", "absent:v1"), ("Zeta", "absent:v1")]);
}

#[test]
fn wasm_modules_replace_each_other_by_source() {
    let stored = |source: &str| {
        Some(WasmModuleRow { sha256_hash: "old".to_string(), source: source.to_string(), version: 4 })
    };
    let bundled = plan_wasm_upsert("bundled", "", "new");
    assert_eq!(bundled.sha256_hash, "new");
    assert_eq!(stored_wasm_module(None, &bundled).version, 1);
    assert_eq!(stored_wasm_module(stored("bundled"), &bundled).version, 5);
    let kept = stored_wasm_module(stored("upload"), &bundled);
    assert_eq!((kept.sha256_hash.as_str(), kept.source.as_str(), kept.version), ("old", "upload", 4));
    let replacing = plan_wasm_upsert("bundled-replace-upload", "given", "new");
    assert!(replacing.replaces_upload);
    let replaced = stored_wasm_module(stored("upload"), &replacing);
    assert_eq!(
        (replaced.sha256_hash.as_str(), replaced.source.as_str(), replaced.version),
        ("given", "bundled", 5)
    );
    let same = plan_wasm_upsert("upload", "old", "new");
    assert_eq!(stored_wasm_module(stored("bundled"), &same).version, 4);
    assert_eq!(effective_hash("", "c"), "c");
    assert_eq!(effective_hash("g", "c"), "g");
}

#[test]
fn wasm_modules_are_registered_and_looked_up() {
    let mut registry = WasmModuleRegistry::new();
    let row = |module: &str, given: &str| TenantWasmModule {
        tenant: "t".to_string(),
        module_name: module.to_string(),
        sha256_hash: given.to_string(),
        computed_hash: "computed".to_string(),
    };
    assert_eq!(registry.load_wasm_modules(&vec![row("a", "given"), row("b", "")]), 2);
    assert_eq!(registry.hash("t", "a"), Some("given".to_string()));
    assert_eq!(registry.hash("t", "b"), Some("computed".to_string()));
    assert_eq!(registry.hash("u", "a"), None);
    assert!(matches!(plan_wasm_lookup(true, None, "t", "m"), WasmLookup::Cached));
    assert!(matches!(
        plan_wasm_lookup(false, Some(TenantMetadataBackend::Turso), "t", "m"),
        WasmLookup::Read(TenantMetadataBackend::Turso)
    ));
    assert!(matches!(
        plan_wasm_lookup(false, None, "t", "m"),
        WasmLookup::Failed(e)
            if e == "cannot lazy-load WASM module 'm' for tenant 't' without a metadata backend"
    ));
    let sources = wasm_module_sources(&vec![NamedWasmModule {
        module_name: "a".to_string(),
        sha256_hash: "h".to_string(),
        source: "upload".to_string(),
    }]);
    assert_eq!(sources.get(&"a".to_string()), Some(&("h".to_string(), "upload".to_string())));
}

#[test]
fn wasm_bytes_are_found_and_checked() {
    assert!(matches!(resolve_wasm_artifact_bytes("t", "m", Some((3, ""))), WasmBytes::Inline));
    assert!(matches!(resolve_wasm_artifact_bytes("t", "m", Some((0, "h"))), WasmBytes::Artifact));
    assert!(matches!(
        resolve_wasm_artifact_bytes("t", "m", Some((0, ""))),
        WasmBytes::Failed(e)
            if e == "WASM module 'm' for tenant 't' has no inline bytes and no artifact hash"
    ));
    assert!(matches!(
        resolve_wasm_artifact_bytes("t", "m", None),
        WasmBytes::Failed(e) if e == "WASM module 'm' not found in persistence for tenant 't'"
    ));
    assert_eq!(
        missing_artifact_error("t", "m", "k"),
        "WASM artifact missing for tenant 't' module 'm' at 'k'"
    );
    assert!(check_wasm_hash("t", "m", "h", "h", "x").is_ok());
    assert!(check_wasm_hash("t", "m", "h", "", "h").is_ok());
    assert_eq!(
        check_wasm_hash("t", "m", "h", "other", "x").unwrap_err(),
        "WASM module hash mismatch for t/m: registry=h persisted=other"
    );
    assert_eq!(
        lazy_load_failure(TenantMetadataBackend::Postgres, "t", "m", "down"),
        "failed to lazy-load WASM module t/m from postgres: down"
    );
    assert_eq!(
        artifact_failure("t", "m", "down"),
        "failed to persist WASM artifact t/m to object store: down"
    );
    assert_eq!(
        compile_failure("t", "m", "bad"),
        "failed to compile lazy-loaded WASM module t/m: bad"
    );
}

fn invocation(module: &str) -> WasmInvocationEntry {
    WasmInvocationEntry {
        timestamp: "now".to_string(),
        tenant: "t".to_string(),
        entity_type: "Doc".to_string(),
        entity_id: "d".to_string(),
        module_name: module.to_string(),
        trigger_action: "Open".to_string(),
        callback_action: None,
        success: true,
        error: None,
        duration_ms: 1,
    }
}

#[test]
fn invocations_come_back_in_their_order() {
    let mut log = BoundedLog::new(2);
    let count =
        load_recent_wasm_invocations(&mut log, vec![invocation("c"), invocation("b"), invocation("a")]);
    assert_eq!(count, 3);
    assert_eq!(log.len(), 2);
    assert_eq!((log.at(0).module_name.as_str(), log.at(1).module_name.as_str()), ("b", "c"));
    assert_eq!(
        invocation_failure(&invocation("m"), "turso", "down"),
        "failed to persist WASM invocation for t/m via turso metadata store: down"
    );
}

#[test]
fn logs_keep_the_newest() {
    let mut log = BoundedLog::new(3);
    for i in 0..5 {
        log.push(i);
    }
    assert_eq!(log.len(), 3);
    assert_eq!((*log.at(0), *log.at(1), *log.at(2)), (2, 3, 4));
}

#[test]
fn evolution_records_need_a_store() {
    assert!(matches!(evolution_store(true, true), Some(EvolutionStore::Metadata)));
    assert!(matches!(evolution_store(false, true), Some(EvolutionStore::Records)));
    assert!(evolution_store(false, false).is_none());
    let row = || EvolutionRecordRow {
        id: "r".to_string(),
        tenant: "t".to_string(),
        record_type: "O".to_string(),
        status: "open".to_string(),
        created_by: "me".to_string(),
        derived_from: None,
        data: "{}".to_string(),
        timestamp: "now".to_string(),
    };
    assert_eq!(list_evolution_records(Some(Ok(vec![row()]))).unwrap().len(), 1);
    assert!(list_evolution_records(None).unwrap().is_empty());
    assert!(list_evolution_records(Some(Err("down".to_string()))).unwrap_err().contains("down"));
    assert_eq!(get_evolution_record(Some(Ok(Some(row())))).unwrap().unwrap().id, "r");
    assert!(get_evolution_record(None).unwrap().is_none());
    assert!(insert_evolution_record(Some(Ok(()))).is_ok());
    assert!(insert_evolution_record(Some(Err("down".to_string()))).is_err());
}

#[test]
fn counters_are_independent() {
    let mut m = MetricsCollector::new();
    m.record_transition("Doc", "Open", true);
    m.record_transition("Doc", "Open", false);
    m.record_transition("Doc", "Open", true);
    assert_eq!(m.transitions.get(&"Doc:Open:true".to_string()), Some(&2));
    assert_eq!(m.transitions.get(&"Doc:Open:false".to_string()), Some(&1));
    assert_eq!((m.transitions_total, m.errors_total), (3, 1));
    m.record_cross_invariant_check("t", "Doc", "pass");
    m.record_cross_invariant_violation("t", "inv", "hard");
    m.record_relation_integrity_violation("t", "Doc", "delete");
    m.record_cross_eval_duration_ms(3);
    m.record_cross_bypass();
    assert_eq!(m.cross_invariant_checks.get(&"t:Doc:pass".to_string()), Some(&1));
    assert_eq!(m.cross_invariant_violations.get(&"t:inv:hard".to_string()), Some(&1));
    assert_eq!(m.relation_integrity_violations.get(&"t:Doc:delete".to_string()), Some(&1));
    assert_eq!(m.cross_invariant_eval_duration_ms_bucket.get(&"5".to_string()), Some(&1));
    assert_eq!(m.cross_invariant_bypass_total, 1);
    assert_eq!(MetricsCollector::default().transitions_total, 0);
}

#[test]
fn totals_are_sums_of_labels() {
    let mut m = MetricsCollector::new();
    for (entity_type, action, success) in [
        ("Doc", "Open", true),
        ("Doc", "Close", false),
        ("Note", "Open", false),
        ("Doc", "Open", true),
        ("Doc:false", "Open", true),
    ] {
        m.record_transition(entity_type, action, success);
        m.record_cross_bypass();
    }
    let mut all: u64 = 0;
    let mut failed: u64 = 0;
    for i in 0..m.transitions.len() {
        let count = *m.transitions.value_at(i);
        all += count;
        if m.transitions.key_at(i).ends_with(":false") {
            failed += count;
        }
    }
    assert_eq!((all, failed), (5, 2));
    assert_eq!((m.transitions_total, m.errors_total), (all, failed));
}

#[test]
fn durations_fall_into_buckets() {
    for (ms, bucket) in [(0, "1"), (1, "1"), (2, "2"), (6, "10"), (5000, "5000"), (5001, "+Inf")] {
        assert_eq!(duration_bucket(ms), bucket);
    }
}

#[test]
fn catalog_updates_are_decided() {
    let mut incoming = SortedMap::new();
    incoming.insert("Doc".to_string(), "f".to_string());
    let additional = vec!["Gone".to_string(), "Doc".to_string()];
    let removed = |source, found| {
        persist_verified_spec_catalog_update(source, &incoming, &additional, found)
            .map(|update| (update.removed.to_strings(), update.declarations.len()))
    };
    let found = || Ok(vec!["Doc".to_string(), "Old".to_string()]);
    let names = |list: &[&str]| list.iter().map(|s| s.to_string()).collect::<Vec<String>>();
    assert_eq!(removed(DroppedSource::Caller, found()), Ok((names(&["Gone"]), 2)));
    assert_eq!(removed(DroppedSource::Declarations, found()), Ok((names(&["Gone", "Old"]), 3)));
    assert_eq!(removed(DroppedSource::Store, found()), Ok((names(&["Doc", "Gone", "Old"]), 4)));
    assert_eq!(removed(DroppedSource::Store, Err("down".to_string())), Err("down".to_string()));
    assert_eq!(
        removed(DroppedSource::Refused, found()),
        Err(redis_ephemeral_error("Verified spec catalog publication"))
    );
    assert_eq!(dropped_source(Some(TenantMetadataBackend::Turso), false, false), DroppedSource::Store);
    assert_eq!(dropped_source(Some(TenantMetadataBackend::Redis), true, true), DroppedSource::Refused);
    assert_eq!(dropped_source(None, true, true), DroppedSource::Declarations);
    assert_eq!(dropped_source(None, true, false), DroppedSource::Caller);
}

#[test]
fn first_calls_need_the_registered_bytes() {
    let call = |row: Result<Option<(usize, &'static str)>, String>, artifact, compiled| {
        ensure_wasm_module_cached(
            TenantMetadataBackend::Turso,
            "t",
            "m",
            "h",
            WasmReadings { row, artifact_key: "k", artifact, computed: "h", compiled },
        )
    };
    assert_eq!(call(Ok(Some((3, "h"))), Ok(false), Ok(())), Ok(()));
    assert_eq!(call(Ok(Some((3, ""))), Ok(false), Ok(())), Ok(()));
    assert_eq!(call(Ok(Some((0, "h"))), Ok(true), Ok(())), Ok(()));
    assert_eq!(
        call(Err("down".to_string()), Ok(true), Ok(())),
        Err("failed to lazy-load WASM module t/m from turso: down".to_string())
    );
    assert_eq!(
        call(Ok(None), Ok(true), Ok(())),
        Err("WASM module 'm' not found in persistence for tenant 't'".to_string())
    );
    assert_eq!(
        call(Ok(Some((0, "h"))), Ok(false), Ok(())),
        Err("WASM artifact missing for tenant 't' module 'm' at 'k'".to_string())
    );
    assert_eq!(
        call(Ok(Some((0, "h"))), Err("unreadable".to_string()), Ok(())),
        Err("unreadable".to_string())
    );
    assert_eq!(
        call(Ok(Some((3, "other"))), Ok(true), Ok(())),
        Err("WASM module hash mismatch for t/m: registry=h persisted=other".to_string())
    );
    assert_eq!(
        call(Ok(Some((3, "h"))), Ok(true), Err("bad".to_string())),
        Err("failed to compile lazy-loaded WASM module t/m: bad".to_string())
    );
    assert_eq!(sources_failure("t", "down"), "failed to load WASM module sources for t: down");
    assert_eq!(recovery_failure("down"), "failed to load WASM modules from turso: down");
}
