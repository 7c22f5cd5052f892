use temper_state::field_backfill::populate_field_index_from_snapshots;
use temper_state::coverage::CoveredType;
use temper_state::key_backfill::TypeRevision;
use temper_state::key_backfill::CandidateType;
use temper_state::entity_load::durable_stream_sequence;
use temper_state::entity_load::is_deleted;
use temper_state::entity_load::load_entity_current_fields;
use temper_state::entity_load::EntityLoadOutcome;
use temper_state::entity_load::RecoveredState;
use temper_state::entity_load::SourceFence;
use temper_state::entity_load::StableEntitySource;
use temper_state::field_backfill::collect_listed_entities;
use temper_state::field_backfill::count_by_type;
use temper_state::field_backfill::count_field_backfill;
use temper_state::field_backfill::field_backfill_sample;
use temper_state::field_backfill::FieldAction;
use temper_state::field_backfill::FieldBackfill;
use temper_state::field_backfill::FieldBackfillOutcome;
use temper_state::field_backfill::FieldEntityEnd;
use temper_state::field_backfill::RepairResult;
use temper_state::field_backfill::SourceReading;
use temper_state::field_backfill::TypeListing;
use temper_state::json::get_text;
use temper_state::json::JsonMember;
use temper_state::json::JsonValue;
use temper_state::key_backfill::key_entity_step;
use temper_state::key_backfill::keyed_membership;
use temper_state::key_backfill::plan_key_backfill;
use temper_state::key_backfill::prepare_key_index_coverage;
use temper_state::key_backfill::settle_publication;
use temper_state::key_backfill::KeyEntityStep;
use temper_state::key_backfill::KeyPhase;
use temper_state::key_backfill::KeyRun;
use temper_state::key_backfill::KeyStop;
use temper_state::key_backfill::KeyTypePlan;
use temper_state::key_backfill::ResolvedKey;
use temper_state::replay_parity::check_entity_parity;
use temper_state::replay_parity::entities_of;
use temper_state::replay_parity::group_entities_by_type;
use temper_state::replay_parity::parity_run_result;
use temper_state::replay_parity::plan_replay_parity;
use temper_state::replay_parity::probe_replay;
use temper_state::replay_parity::replay_parity_sequence_gap;
use temper_state::replay_parity::settle_before_replay;
use temper_state::replay_parity::verify_query_projection_replay_parity;
use temper_state::replay_parity::CatalogReading;
use temper_state::replay_parity::EntityCatalogRow;
use temper_state::replay_parity::EntityRef;
use temper_state::replay_parity::ParityProbe;
use temper_state::replay_parity::ParityRun;
use temper_state::replay_parity::ProbedEntity;
use temper_state::replay_parity::QueryProjectionReplayParityReport;
use temper_state::replay_parity::ReplayReading;
use temper_state::replay_parity::ReplayedEntity;
use temper_state::replay_parity::MAX_REPLAY_PARITY_DRIFT_EXAMPLES;
use temper_state::sorted::SortedMap;
use temper_state::sorted::SortedSet;
use temper_state::vector_backfill::already_complete;
use temper_state::vector_backfill::count_vector_backfill;
use temper_state::vector_backfill::populate_vector_index_from_snapshots;
use temper_state::vector_backfill::undeclared_entity_step;
use temper_state::vector_backfill::vector_backfill_work_types;
use temper_state::vector_backfill::vector_declaration;
use temper_state::vector_backfill::vector_entity_step;
use temper_state::vector_backfill::vector_type_needs_work;
use temper_state::vector_backfill::CompletedType;
use temper_state::vector_backfill::DeclarationSource;
use temper_state::vector_backfill::StreamReading;
use temper_state::vector_backfill::VectorEnd;
use temper_state::vector_backfill::VectorPhase;
use temper_state::vector_backfill::VectorRun;
use temper_state::vector_backfill::VectorStep;
use temper_state::vector_backfill::VectorStop;

fn set(items: &[&str]) -> SortedSet<String> {
    SortedSet::from_strings(&items.iter().map(|s| s.to_string()).collect())
}

#[test]
fn previously_watermarked_empty_vector_type_remains_in_work_set() {
    let current_types = set(&["Item"]);
    let mut covered = SortedMap::new();
    covered.insert("Item".to_string(), "v2|embed:vector:model:2:cosine".to_string());
    covered.insert("Legacy".to_string(), "v1|embed".to_string());

    assert_eq!(
        vector_backfill_work_types(&current_types, &covered, &SortedSet::new()).to_strings(),
        vec!["Item".to_string(), "Legacy".to_string()]
    );
}

#[test]
fn interrupted_empty_reconciliation_remains_in_work_set_without_a_watermark() {
    let current_types = set(&["Item"]);
    let covered = SortedMap::new();
    let reconciliation_types = set(&["Item"]);

    assert_eq!(
        vector_backfill_work_types(&current_types, &covered, &reconciliation_types).to_strings(),
        vec!["Item".to_string()]
    );
}

fn fields(id: &str) -> JsonValue {
    JsonValue::Object(vec![JsonMember {
        name: "ExternalId".to_string(),
        value: JsonValue::Text(id.to_string()),
    }])
}

fn source(journal: u64, materialized: bool, status: &str) -> StableEntitySource {
    StableEntitySource {
        durable_sequence: journal,
        journal_sequence: journal,
        snapshot: None,
        replayed_state_materialization: materialized,
        state: Some(RecoveredState {
            status: status.to_string(),
            total_event_count: 0,
            fields: fields("durable-owner"),
        }),
    }
}

#[test]
fn materialized_zero_domain_event_journal_remains_indexable() {
    match load_entity_current_fields(Some(source(2, true, "Active"))) {
        EntityLoadOutcome::Fields { fields, fence, .. } => {
            assert_eq!(get_text(&fields, "ExternalId"), Some("durable-owner".to_string()));
            assert_eq!(fence.sequence_nr, 2);
            assert_eq!(fence.journal_sequence, 2);
            assert!(fence.snapshot.is_none());
        }
        _ => panic!(
            "a valid state materialization must distinguish an entity from an audit-only phantom"
        ),
    }
}

#[test]
fn audit_only_zero_domain_event_journal_remains_missing() {
    assert!(matches!(
        load_entity_current_fields(Some(source(1, false, "Active"))),
        EntityLoadOutcome::Missing { fence: SourceFence { journal_sequence: 1, .. } }
    ));
}

#[test]
fn loads_are_classified() {
    assert!(matches!(load_entity_current_fields(None), EntityLoadOutcome::LoadFailed));
    assert!(matches!(
        load_entity_current_fields(Some(source(3, true, "Deleted"))),
        EntityLoadOutcome::Deleted { .. }
    ));
    let mut empty = source(1, true, "Active");
    empty.state = None;
    assert!(matches!(
        load_entity_current_fields(Some(empty)),
        EntityLoadOutcome::Missing { .. }
    ));
    assert_eq!(durable_stream_sequence(Some(4), Some(9)), 9);
    assert_eq!(durable_stream_sequence(Some(4), None), 4);
    assert_eq!(durable_stream_sequence(None, None), 0);
}

fn state_reading(deleted: bool) -> SourceReading {
    SourceReading::State { event_count: 2, has_snapshot: false, sequence_nr: 5, deleted }
}

#[test]
fn field_backfill_tries_three_sources() {
    let mut run = FieldBackfill::new();
    for _ in 0..3 {
        assert!(matches!(run.action(), FieldAction::Read));
        run.on_reading(state_reading(false));
        assert!(matches!(run.action(), FieldAction::Repair));
        run.on_repair(RepairResult::SourceChanged);
    }
    assert!(matches!(run.action(), FieldAction::Stop));
    let (outcome, events) = run.finish();
    assert!(outcome.is_none());
    assert_eq!(events, 2);
}

#[test]
fn field_backfill_ends_with_its_first_success() {
    let mut run = FieldBackfill::new();
    run.on_reading(state_reading(false));
    run.on_repair(RepairResult::Applied);
    assert!(matches!(run.action(), FieldAction::Stop));
    assert!(matches!(
        run.finish().0,
        Some(FieldBackfillOutcome::Upserted { event_count: 2, sequence_nr: 5 })
    ));
    let mut gone = FieldBackfill::new();
    gone.on_reading(state_reading(true));
    gone.on_repair(RepairResult::Applied);
    assert!(matches!(gone.finish().0, Some(FieldBackfillOutcome::Removed { .. })));
    let sample = field_backfill_sample(gone.finish().0, 2);
    assert_eq!(sample.event_count, 2);
    let mut failed = FieldBackfill::new();
    for _ in 0..3 {
        assert!(matches!(failed.action(), FieldAction::Read));
        failed.on_reading(SourceReading::Failed);
    }
    assert!(matches!(failed.action(), FieldAction::Stop));
    assert!(failed.finish().0.is_none());
}

#[test]
fn field_backfill_is_counted() {
    let counts = count_field_backfill(&vec![
        FieldEntityEnd::MissingTable,
        FieldEntityEnd::Ran(Some(FieldBackfillOutcome::Upserted { event_count: 1, sequence_nr: 1 })),
        FieldEntityEnd::Ran(None),
    ]);
    assert_eq!((counts.total, counts.indexed, counts.errors), (3, 1, 2));
    let listings = vec![
        TypeListing {
            entity_type: "A".to_string(),
            ids: Some(vec!["1".to_string(), "2".to_string()]),
        },
        TypeListing { entity_type: "B".to_string(), ids: None },
    ];
    let listed = collect_listed_entities(&listings);
    assert_eq!(listed.len(), 2);
    assert_eq!(populate_field_index_from_snapshots(true, true, &listings).len(), 2);
    assert!(populate_field_index_from_snapshots(false, true, &listings).is_empty());
    assert!(populate_field_index_from_snapshots(true, false, &listings).is_empty());
    assert_eq!(count_by_type(&listed).get(&"A".to_string()), Some(&2));
}

fn fence() -> SourceFence {
    SourceFence { sequence_nr: 5, journal_sequence: 5, snapshot: None }
}

fn loaded() -> EntityLoadOutcome {
    EntityLoadOutcome::Fields { fields: fields("x"), status: "Active".to_string(), fence: fence() }
}

fn keys() -> Vec<ResolvedKey> {
    vec![ResolvedKey { key_name: "k".to_string(), key_hash: Some("h".to_string()) }]
}

#[test]
fn key_backfill_is_planned() {
    assert!(matches!(plan_key_backfill(Some("v1"), "v1"), KeyTypePlan::UpToDate));
    assert!(matches!(plan_key_backfill(Some("v0"), "v1"), KeyTypePlan::FullRekey));
    assert!(matches!(plan_key_backfill(None, "v1"), KeyTypePlan::FirstTime));
    let m = keyed_membership(KeyTypePlan::FirstTime, Some(vec!["a".to_string()]));
    assert!(m.known && m.already_keyed.contains(&"a".to_string()));
    assert!(!keyed_membership(KeyTypePlan::FirstTime, None).known);
    let rekey = keyed_membership(KeyTypePlan::FullRekey, Some(vec!["a".to_string()]));
    assert!(!rekey.already_keyed.contains(&"a".to_string()));
}

#[test]
fn key_steps_write_release_and_fail() {
    assert!(matches!(
        key_entity_step(&loaded(), &keys(), false, true),
        KeyEntityStep::Write { rows, .. } if rows.len() == 1
    ));
    assert!(matches!(
        key_entity_step(&EntityLoadOutcome::Deleted { fence: fence() }, &keys(), true, true),
        KeyEntityStep::Write { rows, claim: false }
            if rows.len() == 1 && rows[0].key_name == "k" && rows[0].key_hash.is_empty()
    ));
    assert!(matches!(
        key_entity_step(&EntityLoadOutcome::LoadFailed, &keys(), false, true),
        KeyEntityStep::Fail
    ));
}

#[test]
fn key_backfills_end_complete_or_incomplete() {
    let ids = |n: usize| Some((0..n).map(|i| format!("e{i}")).collect::<Vec<String>>());
    assert!(matches!(KeyRun::new(Some("k"), "k").phase, KeyPhase::Over(KeyStop::UpToDate)));
    let mut run = KeyRun::new(None, "k");
    run.on_listing(None);
    assert!(matches!(run.phase, KeyPhase::Over(KeyStop::NotListed)));
    let mut run = KeyRun::new(None, "k");
    run.on_listing(ids(2));
    assert!(matches!(run.phase, KeyPhase::Membership));
    run.on_membership(Some(vec!["e0".to_string()]));
    assert_eq!(run.next(), "e0");
    run.on_load(&loaded(), &keys());
    assert!(matches!(run.phase, KeyPhase::Entity));
    assert!(run.rows().is_none());
    assert_eq!((run.next().as_str(), run.counts.already), ("e1", 1));
    run.on_load(&loaded(), &keys());
    assert!(matches!(run.phase, KeyPhase::Write));
    assert_eq!(run.next(), "e1");
    let rows = run.rows().unwrap();
    assert_eq!((rows.len(), rows[0].key_name.as_str(), rows[0].key_hash.as_str()), (1, "k", "h"));
    run.on_written(true);
    assert!(matches!(run.phase, KeyPhase::Over(KeyStop::Complete)));
    assert_eq!((run.counts.already, run.counts.newly_keyed, run.counts.failed), (1, 1, 0));
    let mut run = KeyRun::new(Some("old"), "k");
    run.on_listing(ids(1));
    assert!(matches!(run.phase, KeyPhase::Entity));
    run.on_load(&EntityLoadOutcome::LoadFailed, &keys());
    assert!(matches!(run.phase, KeyPhase::Over(KeyStop::Incomplete)));
    assert!(!run.counts.may_watermark());
    let mut run = KeyRun::new(Some("old"), "k");
    run.on_listing(ids(1));
    run.on_load(&loaded(), &keys());
    run.on_written(false);
    assert!(matches!(run.phase, KeyPhase::Over(KeyStop::Incomplete)));
    assert_eq!(run.counts.failed, 1);
    let mut empty = KeyRun::new(Some("old"), "k");
    empty.on_listing(ids(0));
    assert!(matches!(empty.phase, KeyPhase::Over(KeyStop::Complete)));
}

#[test]
fn vector_reconciliations_end_as_they_must() {
    let begun = || {
        let mut run = VectorRun::new("Doc", "v2");
        run.on_begin(Some(7));
        run
    };
    let mut run = VectorRun::new("Doc", "v2");
    run.on_begin(None);
    assert!(matches!(run.phase, VectorPhase::Over(VectorStop::NotBegun)));
    let mut run = begun();
    run.on_watermarks(None);
    assert!(matches!(run.phase, VectorPhase::Over(VectorStop::Unconfirmed)));
    let done = vec![CompletedType { entity_type: "Doc".to_string(), vector_set: "v2".to_string() }];
    let mut run = begun();
    run.on_watermarks(Some(&done));
    assert!(matches!(run.phase, VectorPhase::Over(VectorStop::AlreadyComplete)));
    let mut run = begun();
    run.on_watermarks(Some(&Vec::new()));
    run.on_listing(None);
    assert!(matches!(run.phase, VectorPhase::Over(VectorStop::NotListed)));
    let mut run = begun();
    run.on_watermarks(Some(&Vec::new()));
    run.on_listing(Some(vec!["a".to_string(), "b".to_string()]));
    assert_eq!(run.next(), "a");
    run.on_read(&StreamReading::Entity(EntityLoadOutcome::LoadFailed));
    assert!(matches!(run.phase, VectorPhase::Stream));
    assert_eq!(run.next(), "b");
    run.on_read(&StreamReading::Sequence(Some(8)));
    assert!(matches!(run.phase, VectorPhase::Store(VectorStep::Purge { sequence_nr: 8 })));
    run.on_stored(true, false);
    assert!(matches!(run.phase, VectorPhase::Over(VectorStop::Incomplete)));
    let mut run = begun();
    run.on_watermarks(Some(&Vec::new()));
    run.on_listing(Some(vec!["a".to_string()]));
    run.on_read(&StreamReading::Entity(loaded()));
    assert!(matches!(run.phase, VectorPhase::Store(VectorStep::Index { sequence_nr: 5 })));
    assert_eq!(run.next(), "a");
    run.on_stored(true, true);
    assert!(matches!(run.phase, VectorPhase::Mark));
    assert_eq!(run.generation, 7);
    run.on_mark(true);
    assert!(matches!(run.phase, VectorPhase::Over(VectorStop::Complete)));
    let mut run = begun();
    run.on_watermarks(Some(&Vec::new()));
    run.on_listing(Some(Vec::new()));
    run.on_mark(false);
    assert!(matches!(run.phase, VectorPhase::Over(VectorStop::NotMarked)));
}

#[test]
fn vector_types_are_gathered() {
    let mut covered = SortedMap::new();
    covered.insert("Old".to_string(), "v1".to_string());
    let types = |journal, covered: Option<&SortedMap<String, String>>, registry| {
        populate_vector_index_from_snapshots(
            journal,
            covered,
            Some(&set(&["Open"])),
            &set(&["Doc"]),
            registry,
            &set(&["Shared"]),
        )
        .to_strings()
    };
    assert_eq!(types(true, Some(&covered), true), vec!["Doc", "Old", "Open"]);
    assert_eq!(types(true, Some(&covered), false), vec!["Doc", "Old", "Open", "Shared"]);
    assert!(types(false, Some(&covered), true).is_empty());
    assert!(types(true, None, true).is_empty());
    let declared = vector_declaration(DeclarationSource::Registered {
        revision: 3,
        fingerprint: None,
        source_digest: "d".to_string(),
    });
    assert_eq!((declared.has_table, declared.revision, declared.fingerprint.as_str()), (true, 3, "d"));
    let absent = vector_declaration(DeclarationSource::Unregistered { revision: 3 });
    assert_eq!((absent.has_table, absent.fingerprint.as_str()), (false, "absent:v1"));
    assert_eq!(vector_declaration(DeclarationSource::Legacy { fingerprint: None }).revision, 1);
    assert!(!vector_declaration(DeclarationSource::Unknown).has_table);
}

#[test]
fn parity_runs_are_planned() {
    let listed = || {
        Ok(vec![
            EntityRef { entity_type: "B".to_string(), entity_id: "2".to_string() },
            EntityRef { entity_type: "A".to_string(), entity_id: "1".to_string() },
        ])
    };
    let error = |journal, plane, bounded, listed| {
        plan_replay_parity(journal, plane, bounded, None, listed).err().unwrap()
    };
    assert_eq!(error(false, true, false, listed()), "event journal is not configured");
    assert_eq!(error(true, false, false, listed()), "query-plane store is not configured");
    assert_eq!(
        error(true, true, true, Err("down".to_string())),
        "list bounded persisted entity ids failed: down"
    );
    assert_eq!(
        error(true, true, false, Err("down".to_string())),
        "list persisted entity ids failed: down"
    );
    let scoped = |bounded| plan_replay_parity(true, true, bounded, Some("A"), listed()).ok().unwrap().len();
    assert_eq!((scoped(true), scoped(false)), (2, 1));
}

#[test]
fn covered_types_are_not_replayed() {
    let candidate = |t: &str, keys: &str| CandidateType {
        entity_type: t.to_string(),
        key_set: keys.to_string(),
        activation_epoch: 0,
    };
    let covered = |t: &str, keys: &str| CoveredType {
        entity_type: t.to_string(),
        key_set: keys.to_string(),
    };
    let revision = |t: &str, revision: u64| TypeRevision { entity_type: t.to_string(), revision };
    let candidates =
        vec![candidate("A", "v1"), candidate("B", "v1"), candidate("C", "v1"), candidate("D", "v1")];
    let revisions = vec![revision("A", 3), revision("B", 4), revision("A", 5)];
    let watermarks =
        vec![covered("A", "v0"), covered("A", "v1"), covered("B", "v0"), covered("C", "v1")];
    let plan = |authoritative, reuse| {
        prepare_key_index_coverage(authoritative, &candidates, reuse, &revisions, &watermarks)
    };
    // A stands at its last revision, B has other keys, C no revision, D no watermark.
    assert_eq!(plan(true, true), vec![Some(5), None, None, None]);
    assert_eq!(plan(true, false), vec![None; 4]);
    assert!(plan(false, true).is_empty());
}

#[test]
fn coverage_publication_is_settled() {
    assert!(settle_publication("t", "A", Ok(true)).is_ok());
    assert_eq!(
        settle_publication("t", "A", Ok(false)).unwrap_err(),
        "key contract changed after candidate repair for t:A"
    );
    assert_eq!(
        settle_publication("t", "A", Err("down".to_string())).unwrap_err(),
        "failed to publish key coverage for t:A: down"
    );
}

#[test]
fn vector_steps_index_purge_and_fail() {
    assert!(matches!(vector_entity_step(&loaded()), VectorStep::Index { sequence_nr: 5 }));
    assert!(matches!(
        vector_entity_step(&EntityLoadOutcome::Deleted { fence: fence() }),
        VectorStep::Purge { sequence_nr: 5 }
    ));
    assert!(matches!(vector_entity_step(&EntityLoadOutcome::LoadFailed), VectorStep::Fail));
    assert!(matches!(undeclared_entity_step(Some(8)), VectorStep::Purge { sequence_nr: 8 }));
    assert!(matches!(undeclared_entity_step(None), VectorStep::Fail));
    let counts = count_vector_backfill(&vec![
        VectorEnd { step: VectorStep::Index { sequence_nr: 1 }, stored: true, has_rows: true },
        VectorEnd { step: VectorStep::Index { sequence_nr: 1 }, stored: true, has_rows: false },
        VectorEnd { step: VectorStep::Fail, stored: false, has_rows: false },
    ]);
    assert_eq!((counts.total, counts.indexed, counts.empty, counts.failed), (3, 1, 1, 1));
    assert!(!counts.may_watermark());
    assert!(count_vector_backfill(&Vec::new()).may_watermark());
}

#[test]
fn vector_types_need_work_while_anything_is_open() {
    let mut covered = SortedMap::new();
    covered.insert("Old".to_string(), "v1".to_string());
    assert!(vector_type_needs_work(true, &"New".to_string(), &covered, &SortedSet::new()));
    assert!(vector_type_needs_work(false, &"Old".to_string(), &covered, &SortedSet::new()));
    assert!(vector_type_needs_work(false, &"Open".to_string(), &covered, &set(&["Open"])));
    assert!(!vector_type_needs_work(false, &"None".to_string(), &covered, &SortedSet::new()));
    let done = vec![CompletedType { entity_type: "A".to_string(), vector_set: "v1".to_string() }];
    assert!(already_complete(&done, "A", "v1"));
    assert!(!already_complete(&done, "A", "v2"));
}

fn replayed(status: &str, sequence: u64) -> ReplayedEntity {
    ReplayedEntity {
        status: status.to_string(),
        projected_fields: fields("x"),
        projected_state: JsonValue::Null,
        authoritative_sequence: sequence,
    }
}

fn catalog(status: &str, sequence: u64) -> EntityCatalogRow {
    EntityCatalogRow {
        status: status.to_string(),
        fields: fields("x"),
        state: Some(JsonValue::Null),
        sequence_nr: sequence,
    }
}

#[test]
fn parity_is_checked_entity_by_entity() {
    let mut report = QueryProjectionReplayParityReport::new("t", None, None);
    check_entity_parity(
        &mut report,
        "A",
        "1",
        &ParityProbe::Replayed { catalog: Some(catalog("S", 4)), replayed: replayed("S", 4) },
    );
    assert!(report.is_clean());
    assert_eq!((report.checked, report.matched), (1, 1));
    check_entity_parity(
        &mut report,
        "A",
        "2",
        &ParityProbe::Replayed { catalog: Some(catalog("T", 3)), replayed: replayed("S", 4) },
    );
    check_entity_parity(
        &mut report,
        "A",
        "3",
        &ParityProbe::Replayed { catalog: None, replayed: replayed("S", 4) },
    );
    check_entity_parity(&mut report, "A", "4", &ParityProbe::MissingTable);
    assert!(!report.is_clean());
    assert_eq!((report.drifted, report.missing, report.errors), (2, 1, 1));
    assert_eq!(replay_parity_sequence_gap(Some(3), 5), ("catalog_behind", 2));
    assert_eq!(replay_parity_sequence_gap(Some(5), 5).1, 0);
    assert!(!parity_run_result(&report).is_empty());
}

#[test]
fn probes_follow_catalog_and_replay() {
    let row = || CatalogReading::Row(Some(catalog("S", 4)));
    assert!(matches!(settle_before_replay(false, row()), Err(ParityProbe::MissingTable)));
    assert!(matches!(
        settle_before_replay(true, CatalogReading::Failed),
        Err(ParityProbe::CatalogError)
    ));
    assert!(matches!(
        settle_before_replay(true, CatalogReading::Unavailable),
        Err(ParityProbe::CatalogUnavailable)
    ));
    assert!(matches!(settle_before_replay(true, CatalogReading::Row(None)), Ok(None)));
    assert!(matches!(settle_before_replay(true, row()), Ok(Some(r)) if r.sequence_nr == 4));
    assert!(matches!(
        probe_replay(Some(catalog("S", 4)), ReplayReading::Failed),
        ParityProbe::ReplayError { catalog_sequence: Some(4) }
    ));
    assert!(matches!(
        probe_replay(None, ReplayReading::Absent { authoritative_sequence: 9 }),
        ParityProbe::ReplayAbsent { catalog_sequence: None, authoritative_sequence: 9 }
    ));
    assert!(matches!(
        probe_replay(None, ReplayReading::State(replayed("S", 7))),
        ParityProbe::Replayed { catalog: None, replayed } if replayed.authoritative_sequence == 7
    ));
}

#[test]
fn parity_runs_check_every_listed_entity() {
    let listed = || {
        [("B", "2"), ("A", "9"), ("B", "1"), ("A", "3"), ("B", "2")]
            .iter()
            .map(|(t, id)| EntityRef { entity_type: t.to_string(), entity_id: id.to_string() })
            .collect::<Vec<EntityRef>>()
    };
    let names = |entities: &[EntityRef]| {
        entities.iter().map(|e| format!("{}{}", e.entity_type, e.entity_id)).collect::<Vec<_>>()
    };
    let all = group_entities_by_type(&listed(), None);
    assert_eq!(names(&entities_of(&all)), ["A3", "A9", "B1", "B2", "B2"]);
    let scoped = group_entities_by_type(&listed(), Some("B"));
    assert_eq!(names(&entities_of(&scoped)), ["B1", "B2", "B2"]);
    let mut run = ParityRun::new(&scoped);
    let mut seen = 0;
    while let Some(entity) = run.next() {
        assert_eq!(entity.entity_type, "B");
        run.on_probe(ParityProbe::MissingTable);
        seen += 1;
    }
    let report = run.report("t", Some("B".to_string()), None);
    assert_eq!((seen, report.checked, report.errors), (3, 3, 3));
    assert_eq!(report.drift_examples[0].entity_id, "1");
    assert!(ParityRun::new(&group_entities_by_type(&listed(), Some("C"))).next().is_none());
}

#[test]
fn readings_tell_deleted_states() {
    assert!(is_deleted("Deleted"));
    assert!(!is_deleted("deleted"));
    assert!(matches!(SourceReading::of(None), SourceReading::Failed));
    let source = |state| StableEntitySource {
        durable_sequence: 6,
        journal_sequence: 6,
        snapshot: Some(2),
        replayed_state_materialization: false,
        state,
    };
    assert!(matches!(SourceReading::of(Some(&source(None))), SourceReading::NoState));
    let state = |status: &str| {
        source(Some(RecoveredState {
            status: status.to_string(),
            total_event_count: 3,
            fields: JsonValue::Null,
        }))
    };
    assert!(matches!(
        SourceReading::of(Some(&state("Deleted"))),
        SourceReading::State { event_count: 3, has_snapshot: true, sequence_nr: 6, deleted: true }
    ));
    assert!(matches!(
        SourceReading::of(Some(&state("Open"))),
        SourceReading::State { deleted: false, .. }
    ));
}

#[test]
fn parity_examples_are_bounded() {
    let probed: Vec<ProbedEntity> = (0..40)
        .map(|i| ProbedEntity {
            entity_type: "A".to_string(),
            entity_id: format!("{i}"),
            probe: ParityProbe::Replayed { catalog: None, replayed: replayed("S", 1) },
        })
        .collect();
    let report = verify_query_projection_replay_parity("t", None, None, &probed);
    assert_eq!(report.checked, 40);
    assert_eq!(report.drift_examples.len(), MAX_REPLAY_PARITY_DRIFT_EXAMPLES);
    let grouped = group_entities_by_type(
        &vec![
            EntityRef { entity_type: "B".to_string(), entity_id: "1".to_string() },
            EntityRef { entity_type: "A".to_string(), entity_id: "2".to_string() },
        ],
        Some("A"),
    );
    assert_eq!(grouped.len(), 1);
}
