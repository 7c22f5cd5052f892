use temper_state::activation::close_for_activation;
use temper_state::activation::evict_tenant_actors_for_types;
use temper_state::activation::finish_key_index_contract_activation;
use temper_state::activation::plan_key_contracts;
use temper_state::activation::publish_prepared_key_index_coverage;
use temper_state::activation::retired_types;
use temper_state::activation::settle_activation;
use temper_state::activation::startup_listing_failure;
use temper_state::activation::ActivatedContract;
use temper_state::activation::ContractSource;
use temper_state::activation::KeyDeclaration;
use temper_state::activation::RepairStep;
use temper_state::activation::Repairs;
use temper_state::coverage::find_covering;
use temper_state::coverage::key_index_backfill_complete;
use temper_state::coverage::CoverageReading;
use temper_state::coverage::CoveredType;
use temper_state::coverage::KeyIndexCoverage;
use temper_state::directory::ActorDirectory;
use temper_state::directory::IndexedAs;
use temper_state::eviction::discard_uncommitted_spawn_after_dispatch_failure;
use temper_state::eviction::JournalEvidence;
use temper_state::gates::ActivatingContracts;
use temper_state::gates::GenerationLease;
use temper_state::gates::TenantGate;
use temper_state::json::JsonMember;
use temper_state::json::JsonValue;
use temper_state::key_backfill::CandidateType;
use temper_state::key_backfill::PreparedKeyIndexCoverage;
use temper_state::loading::ensure_entity_loaded;
use temper_state::loading::find_tombstone;
use temper_state::loading::same_snapshot;
use temper_state::loading::ActorReport;
use temper_state::loading::CapturedSnapshot;
use temper_state::loading::JournalBoundary;
use temper_state::loading::JournalEvent;
use temper_state::loading::LoadDecision;
use temper_state::loading::LoadStep;
use temper_state::loading::Loading;
use temper_state::loading::Materialization;
use temper_state::loading::MaterializeStep;
use temper_state::loading::Materialized;
use temper_state::loading::SpawnReport;
use temper_state::passivation::count_passivated;
use temper_state::passivation::passivation_candidates;
use temper_state::passivation::plan_passivation;
use temper_state::passivation::settle_passivation;
use temper_state::passivation::snapshot_wanted;
use temper_state::passivation::still_idle;
use temper_state::passivation::IdleActor;
use temper_state::passivation::PassivationDrain;
use temper_state::passivation::PassivationEnd;
use temper_state::passivation::PassivationPlan;
use temper_state::readiness::is_serving;
use temper_state::readiness::AskRound;
use temper_state::readiness::DrainRetry;
use temper_state::readiness::DrainStep;
use temper_state::readiness::Readiness;
use temper_state::readiness::ReadinessProbe;
use temper_state::readiness::ReadinessStep;
use temper_state::sorted::SortedMap;
use temper_state::sorted::SortedSet;
use temper_state::state_cache::EntityStateCache;
use temper_state::timestamps::record_time;
use temper_state::timestamps::time_or_now;
use temper_state::timestamps::time_text;
use temper_state::timestamps::Timestamp;

fn at(secs: i64) -> Timestamp {
    Timestamp { secs, nanos: 0 }
}

fn with_actor(uid: u128, secs: i64) -> ActorDirectory {
    let mut directory = ActorDirectory::new();
    directory.get_or_register(
        "t:Doc:d1",
        IndexedAs { index_key: "t:Doc", entity_id: "d1" },
        at(secs),
        || uid,
    );
    directory
}

#[test]
fn waiting_for_readiness_ends() {
    let mut r = Readiness::new();
    assert!(matches!(
        r.on_probe(ReadinessProbe::Answered { serving: true }),
        ReadinessStep::Ready
    ));
    let mut r = Readiness::new();
    assert!(matches!(r.on_probe(ReadinessProbe::Deleted), ReadinessStep::Retire));
    let mut r = Readiness::new();
    let mut ended = false;
    for _ in 0..10 {
        match r.on_probe(ReadinessProbe::Rejected { drain_fenced: false }) {
            ReadinessStep::GiveUp { .. } => {
                ended = true;
                break;
            }
            ReadinessStep::Again { .. } => {}
            _ => panic!("a rejected actor is asked again"),
        }
    }
    assert!(ended);
}

#[test]
fn drain_retries_are_bounded() {
    let round = |rejected| AskRound {
        attempts: 2,
        elapsed_nanos: 10,
        rejected,
        drain_fenced: true,
        stopped: false,
    };
    let mut d = DrainRetry::new();
    assert!(matches!(d.on_round(round(false)), DrainStep::Finish));
    assert!(!d.retried(false));
    let mut d = DrainRetry::new();
    for _ in 0..3 {
        assert!(matches!(d.on_round(round(true)), DrainStep::FindReplacement { .. }));
        assert!(d.on_replacement(true));
    }
    assert!(matches!(d.on_round(round(true)), DrainStep::Finish));
    assert_eq!((d.attempts, d.elapsed_nanos, d.drain_retries), (8, 40, 3));
    assert!(d.retried(false));
}

#[test]
fn only_the_registered_actor_serves() {
    let d = with_actor(7, 100);
    let key = "t:Doc:d1".to_string();
    assert!(is_serving(&d, &key, 7, false, false));
    assert!(!is_serving(&d, &key, 8, false, false));
    assert!(!is_serving(&d, &key, 7, true, false));
    assert!(!is_serving(&d, &key, 7, false, true));
}

fn event(sequence_nr: u64, event_type: &str) -> JournalEvent {
    JournalEvent { sequence_nr, event_type: event_type.to_string(), payload: JsonValue::Null }
}

#[test]
fn deleted_entities_are_not_loaded() {
    let mut tombstone = event(3, "Changed");
    tombstone.payload = JsonValue::Object(vec![JsonMember {
        name: "action".to_string(),
        value: JsonValue::Text("Deleted".to_string()),
    }]);
    let events = vec![event(1, "Created"), tombstone, event(4, "Changed")];
    assert_eq!(find_tombstone(&events), Some(3));
    assert!(matches!(ensure_entity_loaded(false, Some(&events)), LoadDecision::Retire(3)));
    assert!(matches!(
        ensure_entity_loaded(false, Some(&vec![event(1, "Created")])),
        LoadDecision::Materialize
    ));
    assert!(matches!(ensure_entity_loaded(false, Some(&Vec::new())), LoadDecision::Answer(false)));
    assert!(matches!(ensure_entity_loaded(true, None), LoadDecision::Answer(true)));
    assert!(matches!(ensure_entity_loaded(false, None), LoadDecision::Answer(false)));
}

#[test]
fn loads_confirm_what_they_read() {
    let boundary = JournalBoundary { first_terminal_sequence: None, latest_sequence: 0 };
    let snapshot = || CapturedSnapshot { sequence_nr: 2, state: vec![1, 2] };
    let mut load = Loading::new();
    assert!(matches!(load.begin(false, true), LoadStep::ReadBoundary));
    assert!(matches!(load.on_boundary(Some(boundary)), LoadStep::ReadSnapshot));
    assert!(matches!(load.on_snapshot(Some(snapshot())), LoadStep::Spawn));
    let now = snapshot();
    let report = |current| {
        SpawnReport::Answer(ActorReport {
            deleted: false,
            used: Some(&now),
            boundary: Some(boundary),
            current,
        })
    };
    assert!(matches!(load.on_spawn(report(Some(&now))), LoadStep::Done(true)));
    assert!(matches!(load.on_spawn(SpawnReport::NoActor), LoadStep::Done(false)));
    assert!(same_snapshot(&snapshot(), &snapshot()));
    assert!(!same_snapshot(&snapshot(), &CapturedSnapshot { sequence_nr: 2, state: vec![1] }));
}

#[test]
fn materialization_ends() {
    let mut m = Materialization::new();
    assert!(matches!(
        m.on_attempt(Materialized::Answered { serving: true }),
        MaterializeStep::Done(true)
    ));
    let mut m = Materialization::new();
    let mut steps = 0;
    loop {
        steps += 1;
        match m.on_attempt(Materialized::Answered { serving: false }) {
            MaterializeStep::Again => {}
            MaterializeStep::Done(done) => {
                assert!(!done);
                break;
            }
            MaterializeStep::Retire => panic!("nothing is deleted"),
        }
    }
    assert_eq!(steps, 3);
}

#[test]
fn used_actors_are_not_passivated() {
    let mut d = with_actor(7, 100);
    assert_eq!(passivation_candidates(&d, at(150)).len(), 1);
    d.stamp_access("t:Doc:d1", at(200));
    assert!(passivation_candidates(&d, at(150)).is_empty());
    assert_eq!(passivation_candidates(&d, at(200)).len(), 1);
}

#[test]
fn idle_actors_are_passivated_and_stay_listed() {
    let mut d = with_actor(7, 100);
    let mut cache = EntityStateCache::new(8);
    cache.record("t", "Doc", "d1", "Draft", at(100));
    assert!(passivation_candidates(&d, at(99)).is_empty());
    let idle = passivation_candidates(&d, at(100));
    assert_eq!(idle.len(), 1);
    assert_eq!((idle[0].key.as_str(), idle[0].uid), ("t:Doc:d1", 7));
    assert!(still_idle(&d, &idle[0], false, at(100)));
    assert!(!still_idle(&d, &IdleActor { key: "t:Doc:d1".to_string(), uid: 8 }, false, at(100)));
    assert!(matches!(plan_passivation("t:Doc:d1", true, true), PassivationPlan::DrainAndRecover));
    assert!(matches!(plan_passivation("nonsense", true, true), PassivationPlan::Skip));
    assert!(matches!(
        settle_passivation(&mut d, &mut cache, &idle[0], PassivationDrain::NotDrained),
        PassivationEnd::Skipped
    ));
    let end = settle_passivation(
        &mut d,
        &mut cache,
        &idle[0],
        PassivationDrain::Drained,
    );
    assert!(matches!(end, PassivationEnd::Passivated));
    assert_eq!(d.active_actor_count(), 0);
    assert_eq!(d.active_entity_count(), 1);
    assert_eq!(count_passivated(&vec![end, PassivationEnd::Skipped]), 1);
}

#[test]
fn passivated_actors_keep_their_listing() {
    for drain in [PassivationDrain::Drained, PassivationDrain::Unrecovered] {
        let mut d = with_actor(7, 100);
        let mut cache = EntityStateCache::new(8);
        cache.record("t", "Doc", "d1", "Draft", at(100));
        cache.record("t", "Doc", "d2", "Draft", at(100));
        let other = IdleActor { key: "t:Doc:d1".to_string(), uid: 8 };
        settle_passivation(&mut d, &mut cache, &other, drain);
        assert_eq!((d.active_actor_count(), d.active_entity_count()), (1, 1));
        assert!(cache.status("t", "Doc", "d1").is_some());
        let idle = IdleActor { key: "t:Doc:d1".to_string(), uid: 7 };
        let end = settle_passivation(&mut d, &mut cache, &idle, drain);
        assert_eq!((d.active_actor_count(), d.active_entity_count()), (0, 1));
        assert!(passivation_candidates(&d, at(500)).is_empty());
        assert!(cache.status("t", "Doc", "d1").is_none());
        assert!(cache.status("t", "Doc", "d2").is_some());
        assert_eq!(
            end == PassivationEnd::Rematerialize,
            drain == PassivationDrain::Unrecovered
        );
    }
}

#[test]
fn snapshots_are_wanted_of_journaled_states() {
    assert!(!snapshot_wanted(false, Some(3)));
    assert!(snapshot_wanted(true, Some(3)));
    assert!(!snapshot_wanted(true, Some(0)));
    assert!(!snapshot_wanted(true, None));
}

#[test]
fn uncommitted_spawns_are_discarded() {
    let discard = |evidence| {
        let mut d = with_actor(7, 100);
        let gone =
            discard_uncommitted_spawn_after_dispatch_failure(&mut d, "t", "Doc", "d1", 7, evidence);
        (gone, d.active_actor_count(), d.active_entity_count())
    };
    assert_eq!(discard(JournalEvidence::Empty), (true, 0, 0));
    assert_eq!(discard(JournalEvidence::NoJournal).0, discard(JournalEvidence::NoJournal).1 == 0);
    assert_eq!(discard(JournalEvidence::Events).2, 1);
    assert_eq!(discard(JournalEvidence::Unknown).2, 1);
}

fn names(items: &[&str]) -> SortedSet<String> {
    SortedSet::from_strings(&items.iter().map(|s| s.to_string()).collect())
}

#[test]
fn activation_gates_everything() {
    let mut gates = ActivatingContracts::new();
    let open = TenantGate { closed: false, generation: 2 };
    let closed = TenantGate { closed: true, generation: 2 };
    let lease = |generation| GenerationLease {
        tenant: "t".to_string(),
        generation,
        held: true,
        publication_owned: false,
    };
    assert!(!gates.actor_resolution_gated("t", "Doc", open, None));
    assert!(gates.actor_resolution_gated("t", "Doc", closed, None));
    assert!(!gates.actor_resolution_gated("t", "Doc", closed, Some(&lease(2))));
    assert!(gates.actor_resolution_gated("t", "Doc", closed, Some(&lease(1))));
    gates.close("t", &names(&["Doc"]));
    assert!(gates.contains("t", "Doc"));
    assert!(gates.actor_resolution_gated("t", "Doc", open, Some(&lease(2))));
    assert!(!gates.actor_resolution_gated("t", "Order", open, None));
    assert!(!gates.actor_resolution_gated("u", "Doc", open, None));
    gates.reopen("t", &names(&["Doc"]));
    assert!(!gates.actor_resolution_gated("t", "Doc", open, None));
}

#[test]
fn coverage_is_remembered_and_withdrawn() {
    let types =
        vec![CoveredType { entity_type: "Doc".to_string(), key_set: "v1".to_string() }];
    assert_eq!(find_covering(&types, "Doc"), Some("v1".to_string()));
    assert_eq!(find_covering(&types, "Order"), None);
    let mut c = KeyIndexCoverage::new();
    assert!(c.needs_loading("t"));
    c.ensure_key_index_watermarks_loaded("t", CoverageReading::NoJournal);
    assert!(c.needs_loading("t"));
    c.ensure_key_index_watermarks_loaded("u", CoverageReading::Failed);
    assert!(!c.needs_loading("u"));
    assert_eq!(c.remembered("u", "Doc"), None);
    c.ensure_key_index_watermarks_loaded("t", CoverageReading::Types(&types));
    assert!(!c.needs_loading("t"));
    assert_eq!(c.remembered("t", "Doc"), Some("v1".to_string()));
    assert!(key_index_backfill_complete(&mut c, "t", "Doc", "v1", false, CoverageReading::NoJournal, CoverageReading::Types(&types)));
    assert!(!key_index_backfill_complete(&mut c, "t", "Doc", "v2", false, CoverageReading::NoJournal, CoverageReading::Types(&types)));
    assert!(!key_index_backfill_complete(&mut c, "t", "Doc", "v1", true, CoverageReading::NoJournal, CoverageReading::Types(&types)));
    assert_eq!(
        c.key_index_backfill_covered_key_set(
            "t",
            "Doc",
            false,
            CoverageReading::NoJournal,
            CoverageReading::Types(&Vec::new())
        ),
        None
    );
    assert_eq!(c.remembered("t", "Doc"), None);
    c.mark_key_index_backfilled("t", "Doc", "v2", false);
    assert_eq!(c.remembered("t", "Doc"), None);
    c.mark_key_index_backfilled("t", "Doc", "v2", true);
    assert_eq!(c.remembered("t", "Doc"), Some("v2".to_string()));
    c.mark_key_index_backfilled_if_revision("t", "Doc", "v3", &Err("down".to_string()));
    assert_eq!(c.remembered("t", "Doc"), Some("v2".to_string()));
    c.mark_key_index_backfilled_if_revision("t", "Doc", "v3", &Ok(false));
    assert_eq!(c.remembered("t", "Doc"), None);
    c.mark_key_index_backfilled_if_revision("t", "Doc", "v3", &Ok(true));
    assert_eq!(c.remembered("t", "Doc"), Some("v3".to_string()));
    c.forget_types("t", &vec!["Doc".to_string()]);
    assert_eq!(c.remembered("t", "Doc"), None);
}

fn contract(entity_type: &str, parsed: Result<KeyDeclaration, String>) -> ContractSource {
    ContractSource {
        entity_type: entity_type.to_string(),
        ioa_source: "abc".to_string(),
        parsed,
    }
}

#[test]
fn contracts_are_planned() {
    let declared = || Ok(KeyDeclaration { key_set: "k".to_string(), keyless: false });
    let plan = plan_key_contracts(&vec![contract("Doc", declared())], &vec!["Old".to_string()], "none")
        .unwrap();
    let doc = plan.get(&"Doc".to_string()).unwrap();
    assert_eq!((doc.key_set.as_str(), doc.purge_existing_rows), ("k", false));
    assert_eq!(
        doc.spec_fingerprint,
        "ba7816bf8f01cfea414140de5dae2223b00361a396177a9cb410ff61f20015ad"
    );
    let old = plan.get(&"Old".to_string()).unwrap();
    assert_eq!((old.key_set.as_str(), old.purge_existing_rows), ("none", true));
    let error = |sources: Vec<ContractSource>, removed: &[&str]| {
        let removed = removed.iter().map(|s| s.to_string()).collect();
        plan_key_contracts(&sources, &removed, "none").err().unwrap()
    };
    assert_eq!(
        error(vec![contract("Doc", declared()), contract("Doc", declared())], &[]),
        "duplicate entity type Doc in key contract activation"
    );
    assert_eq!(
        error(vec![contract("Doc", Err("bad".to_string()))], &[]),
        "failed to prepare key contract for Doc before spec activation: bad"
    );
    assert_eq!(
        error(vec![contract("Doc", declared())], &["Doc"]),
        "entity type Doc cannot be both published and removed"
    );
}

#[test]
fn repairs_are_bounded() {
    let mut r = Repairs::new();
    assert!(matches!(r.on_publish("t", Some("down")), RepairStep::Repair));
    assert!(matches!(r.on_publish("t", Some("down")), RepairStep::Repair));
    assert!(matches!(
        r.on_publish("t", Some("down")),
        RepairStep::Failed(e) if e == "key contract activation for t remained not-ready after 3 source-fenced repairs: down"
    ));
    assert!(matches!(Repairs::new().on_publish("t", None), RepairStep::Ready));
}

#[test]
fn tenants_actors_are_evicted_by_type() {
    let mut d = ActorDirectory::new();
    for (key, index, id, uid) in [
        ("t:Doc:1", "t:Doc", "1", 1),
        ("t:Order:2", "t:Order", "2", 2),
        ("u:Doc:3", "u:Doc", "3", 3),
    ] {
        d.get_or_register(key, IndexedAs { index_key: index, entity_id: id }, at(0), || uid);
    }
    assert_eq!(evict_tenant_actors_for_types(&mut d, "t", Some(&names(&["Doc"]))), vec![1]);
    assert_eq!(evict_tenant_actors_for_types(&mut d, "t", None), vec![2]);
    assert_eq!(d.active_actor_count(), 1);
    let activated = |tenant: &str, entity_type: &str| ActivatedContract {
        tenant: tenant.to_string(),
        entity_type: entity_type.to_string(),
    };
    assert_eq!(
        retired_types(
            &vec![activated("t", "Doc"), activated("t", "Old"), activated("u", "Old")],
            "t",
            &names(&["Doc"])
        ),
        vec!["Old".to_string()]
    );
}

#[test]
fn the_cache_drops_what_was_used_least_lately() {
    let mut cache = EntityStateCache::new(2);
    cache.record("t", "Doc", "1", "Draft", at(1));
    cache.record("t", "Doc", "2", "Open", at(2));
    assert_eq!(cache.status("t", "Doc", "1"), Some("Draft".to_string()));
    cache.record("t", "Doc", "3", "Open", at(3));
    assert_eq!(cache.status("t", "Doc", "2"), None);
    assert_eq!(cache.status("t", "Doc", "1"), Some("Draft".to_string()));
    cache.forget(&"t:Doc:1".to_string());
    assert_eq!(cache.status("t", "Doc", "1"), None);
    assert_eq!(cache.settle_status("t", "Doc", "9", Some("New".to_string()), at(4)), Some("New".to_string()));
    assert_eq!(cache.status("t", "Doc", "9"), Some("New".to_string()));
    assert_eq!(cache.settle_status("t", "Doc", "8", None, at(4)), None);
}

#[test]
fn times_are_read_and_written() {
    let now = at(50);
    let t = record_time("2025-01-02T03:04:05.5Z", now);
    assert_eq!((t.secs, t.nanos), (1_735_787_045, 500_000_000));
    let t = record_time("2025-01-02T03:04:05+01:00", now);
    assert_eq!(t.secs, 1_735_783_445);
    assert_eq!(record_time("no time", now).secs, 50);
    assert_eq!(time_or_now(None, now).secs, 50);
    assert_eq!(time_or_now(Some((7, 8)), now).nanos, 8);
    assert_eq!(time_text(at(0)), Some("1970-01-01T00:00:00+00:00".to_string()));
    assert_eq!(time_text(Timestamp { secs: i64::MAX, nanos: 0 }), None);
    assert!(at(1).not_after(&at(1)));
    assert!(!at(2).not_after(&at(1)));
    assert_eq!(at(100).minus_seconds(30).secs, 70);
}

#[test]
fn cutovers_close_publish_and_reopen() {
    let mut gates = ActivatingContracts::new();
    let mut coverage = KeyIndexCoverage::new();
    coverage.mark_key_index_backfilled("t", "Doc", "old", true);
    let declared = Ok(KeyDeclaration { key_set: "k".to_string(), keyless: false });
    let contracts =
        plan_key_contracts(&vec![contract("Doc", declared)], &Vec::new(), "none").ok().unwrap();
    let affected = close_for_activation(&mut gates, "t", &contracts);
    assert!(gates.contains("t", "Doc"));
    let candidate = |t: &str, activation_epoch| CandidateType {
        entity_type: t.to_string(),
        key_set: "k".to_string(),
        activation_epoch,
    };
    let mut candidates = vec![candidate("Doc", 1), candidate("Note", 4)];
    assert_eq!(
        settle_activation(&mut coverage, &mut candidates, "t", Err("down".to_string())).err(),
        Some("failed to atomically activate key contracts for t: down".to_string())
    );
    assert_eq!(coverage.remembered("t", "Doc"), Some("old".to_string()));
    assert_eq!(candidates[0].activation_epoch, 1);
    let mut epochs = SortedMap::new();
    epochs.insert("Doc".to_string(), 9);
    epochs.insert("Gone".to_string(), 10);
    let epochs =
        settle_activation(&mut coverage, &mut candidates, "t", Ok(epochs)).ok().unwrap();
    assert_eq!(epochs.get(&"Gone".to_string()), Some(&10));
    assert_eq!((candidates[0].activation_epoch, candidates[1].activation_epoch), (9, 4));
    assert_eq!(coverage.remembered("t", "Doc"), None);
    let prepared = vec![PreparedKeyIndexCoverage {
        entity_type: "Doc".to_string(),
        key_set: "k".to_string(),
        revision: 1,
        total: 0,
        newly_keyed: 0,
        skipped: 0,
    }];
    let mut repairs = Repairs::new();
    let refused =
        publish_prepared_key_index_coverage(&mut coverage, "t", &prepared, vec![Ok(false)]);
    assert_eq!(
        refused,
        Err("key contract changed after candidate repair for t:Doc".to_string())
    );
    assert!(matches!(
        finish_key_index_contract_activation(&mut gates, &mut repairs, "t", &affected, refused),
        RepairStep::Repair
    ));
    assert!(gates.contains("t", "Doc"));
    let taken = publish_prepared_key_index_coverage(&mut coverage, "t", &prepared, vec![Ok(true)]);
    assert_eq!(coverage.remembered("t", "Doc"), Some("k".to_string()));
    assert!(matches!(
        finish_key_index_contract_activation(&mut gates, &mut repairs, "t", &affected, taken),
        RepairStep::Ready
    ));
    assert!(!gates.contains("t", "Doc"));
    assert_eq!(
        startup_listing_failure("down"),
        "failed to enumerate activated key contracts at startup: down"
    );
}
