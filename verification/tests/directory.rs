use temper_state::directory::ActorDirectory;
use temper_state::directory::IndexedAs;
use temper_state::directory::InitFailureKind;
use temper_state::eviction::claim_removal;
use temper_state::eviction::discard_uncommitted_spawn_after_dispatch_failure;
use temper_state::eviction::settle_removal;
use temper_state::eviction::Eviction;
use temper_state::eviction::EvictionStep;
use temper_state::eviction::JournalEvidence;
use temper_state::eviction::RemovalEnd;
use temper_state::eviction::StopOutcome;
use temper_state::timestamps::Timestamp;

fn at(secs: i64) -> Timestamp {
    Timestamp { secs, nanos: 0 }
}

fn indexed_as<'a>(index_key: &'a str, entity_id: &'a str) -> IndexedAs<'a> {
    IndexedAs { index_key, entity_id }
}

fn is_registered(d: &ActorDirectory, key: &str) -> bool {
    d.registry.contains_key(&key.to_string())
}

fn is_stamped(d: &ActorDirectory, key: &str) -> bool {
    d.last_accessed.contains_key(&key.to_string())
}

#[test]
fn registration_publishes_all_three_maps() {
    let mut directory = ActorDirectory::new();
    let key = "default:Doc:doc-1";
    let (_actor, spawned) =
        directory.get_or_register(key, indexed_as("default:Doc", "doc-1"), at(1), || 11);
    assert!(spawned, "an empty directory spawns");
    assert!(is_registered(&directory, key));
    assert!(
        directory.collection.index.contains("default:Doc", "doc-1"),
        "a registered actor's entity must be listed for collection queries"
    );
    assert!(is_stamped(&directory, key));

    let (again, spawned_again) =
        directory.get_or_register(key, indexed_as("default:Doc", "doc-1"), at(2), || {
            panic!("must not spawn a second incarnation for a registered key")
        });
    assert!(!spawned_again);
    assert_eq!(again, 11);
    assert_eq!(directory.last_accessed.get(&key.to_string()), Some(&at(2)));
}

#[test]
fn retraction_drops_the_last_bucket() {
    let mut directory = ActorDirectory::new();
    let key = "default:Doc:doc-2";
    let (actor, _) =
        directory.get_or_register(key, indexed_as("default:Doc", "doc-2"), at(1), || 21);
    assert!(directory.unregister(key, actor, Some(indexed_as("default:Doc", "doc-2"))));
    assert!(!is_registered(&directory, key));
    assert!(!directory.collection.index.contains("default:Doc", "doc-2"));
    assert_eq!(directory.active_entity_count(), 0);
    assert!(!is_stamped(&directory, key));
}

#[test]
fn a_stale_retraction_cannot_touch_the_successor() {
    let mut directory = ActorDirectory::new();
    let key = "default:Doc:doc-3";
    let (dead, _) = directory.get_or_register(key, indexed_as("default:Doc", "doc-3"), at(1), || 31);
    assert!(directory.unregister(key, dead, None));
    let (successor, spawned) =
        directory.get_or_register(key, indexed_as("default:Doc", "doc-3"), at(2), || 32);
    assert!(spawned, "the key was free, so this is a new incarnation");
    assert_ne!(successor, dead);

    assert!(!directory.unregister(key, dead, Some(indexed_as("default:Doc", "doc-3"))));
    assert!(is_registered(&directory, key), "the successor must still be registered");
    assert!(
        directory.collection.index.contains("default:Doc", "doc-3"),
        "the successor's entity must still be listed"
    );
    assert!(is_stamped(&directory, key), "an actor with no access stamp is never passivated again");
}

#[test]
fn eviction_drops_all_three_maps_and_returns_the_actor() {
    let mut directory = ActorDirectory::new();
    let key = "default:Doc:doc-4";
    let (actor, _) =
        directory.get_or_register(key, indexed_as("default:Doc", "doc-4"), at(1), || 41);
    let removed = directory
        .unregister_any(key, indexed_as("default:Doc", "doc-4"))
        .expect("the registered actor comes back so the caller can stop it");
    assert_eq!(removed, actor);
    assert_eq!(directory.active_actor_count(), 0);
    assert_eq!(
        directory.collection.index.counts_by_tenant().len(),
        0,
        "the deleted entity must not stay listed"
    );
    assert_eq!(directory.last_accessed.len(), 0);
    assert!(
        directory.unregister_any(key, indexed_as("default:Doc", "doc-4")).is_none(),
        "a second delete finds nothing and says so"
    );
}

#[test]
fn only_a_constraint_unlists_a_failed_spawn() {
    for (kind, listed) in [
        (Some(InitFailureKind::Constraint), false),
        (Some(InitFailureKind::TransientDependency), true),
        (Some(InitFailureKind::Defect), true),
    ] {
        let mut directory = ActorDirectory::new();
        directory.get_or_register("t:Doc:d", indexed_as("t:Doc", "d"), at(1), || 7);
        assert!(directory.retract_failed_init("t", "Doc", "d", 7, kind));
        assert!(!is_registered(&directory, "t:Doc:d"));
        assert!(!is_stamped(&directory, "t:Doc:d"));
        assert_eq!(directory.collection.entity_exists("t", "Doc", "d"), listed);
    }
    let mut directory = ActorDirectory::new();
    directory.get_or_register("t:Doc:d", indexed_as("t:Doc", "d"), at(1), || 7);
    assert!(!directory.retract_failed_init("t", "Doc", "d", 7, None));
    assert!(!directory.retract_failed_init("t", "Doc", "d", 8, Some(InitFailureKind::Constraint)));
    assert!(is_registered(&directory, "t:Doc:d"));
}

fn order_directory(entity_id: &str, uid: u128) -> ActorDirectory {
    let mut directory = ActorDirectory::new();
    let key = format!("default:Order:{entity_id}");
    directory.get_or_register(&key, indexed_as("default:Order", entity_id), at(1), || uid);
    directory
}

#[test]
fn failed_cleanup_removes_only_the_empty_actor_incarnation() {
    let mut directory = order_directory("empty-history", 1);
    assert!(discard_uncommitted_spawn_after_dispatch_failure(
        &mut directory,
        "default",
        "Order",
        "empty-history",
        1,
        JournalEvidence::Empty,
    ));
    let key = "default:Order:empty-history";
    assert!(!is_registered(&directory, key));
    assert!(!is_stamped(&directory, key));
    assert!(!directory.collection.entity_exists("default", "Order", "empty-history"));
}

#[test]
fn failed_cleanup_preserves_a_replacement_actor_incarnation() {
    let id = "replacement-incarnation";
    let key = "default:Order:replacement-incarnation";
    let mut directory = order_directory(id, 1);
    assert!(directory.unregister(key, 1, None));
    directory.get_or_register(key, indexed_as("default:Order", id), at(2), || 2);
    assert!(!discard_uncommitted_spawn_after_dispatch_failure(
        &mut directory,
        "default",
        "Order",
        id,
        1,
        JournalEvidence::Empty,
    ));
    assert_eq!(directory.registry.get(&key.to_string()), Some(&2));
    assert!(is_stamped(&directory, key));
    assert!(directory.collection.entity_exists("default", "Order", id));
}

#[test]
fn failed_cleanup_evicts_terminal_actor_but_preserves_index_when_history_read_is_ambiguous() {
    let id = "ambiguous-history";
    let mut directory = order_directory(id, 1);
    assert!(discard_uncommitted_spawn_after_dispatch_failure(
        &mut directory,
        "default",
        "Order",
        id,
        1,
        JournalEvidence::Unknown,
    ));
    assert!(!is_registered(&directory, "default:Order:ambiguous-history"));
    assert!(!is_stamped(&directory, "default:Order:ambiguous-history"));
    assert!(directory.collection.entity_exists("default", "Order", id));
}

#[test]
fn failed_cleanup_evicts_terminal_actor_but_preserves_index_with_durable_history() {
    let id = "durable-history";
    let mut directory = order_directory(id, 1);
    assert!(discard_uncommitted_spawn_after_dispatch_failure(
        &mut directory,
        "default",
        "Order",
        id,
        1,
        JournalEvidence::Events,
    ));
    assert!(!is_registered(&directory, "default:Order:durable-history"));
    assert!(!is_stamped(&directory, "default:Order:durable-history"));
    assert!(directory.collection.entity_exists("default", "Order", id));
}

#[test]
fn failed_cleanup_without_a_journal_unlists() {
    let mut directory = order_directory("memory-only", 1);
    assert!(discard_uncommitted_spawn_after_dispatch_failure(
        &mut directory,
        "default",
        "Order",
        "memory-only",
        1,
        JournalEvidence::NoJournal,
    ));
    assert!(!directory.collection.entity_exists("default", "Order", "memory-only"));
}

#[test]
fn eviction_of_an_unserved_entity_unlists_it() {
    let mut directory = ActorDirectory::new();
    directory.collection.index.insert("t:Doc", "d");
    let mut eviction = Eviction::new(None);
    assert_eq!(eviction.begin(&mut directory, "t", "Doc", "d"), EvictionStep::Done(true));
    assert!(!directory.collection.entity_exists("t", "Doc", "d"));

    directory.collection.index.insert("t:Doc", "d");
    let mut expecting = Eviction::new(Some(5));
    assert_eq!(expecting.begin(&mut directory, "t", "Doc", "d"), EvictionStep::Done(false));
    assert!(directory.collection.entity_exists("t", "Doc", "d"));
}

#[test]
fn eviction_follows_successors_and_then_gives_up() {
    let key = "t:Doc:d";
    let mut directory = ActorDirectory::new();
    let mut eviction = Eviction::new(None);
    for round in 1u128..4 {
        directory.get_or_register(key, indexed_as("t:Doc", "d"), at(1), || round);
        assert_eq!(eviction.begin(&mut directory, "t", "Doc", "d"), EvictionStep::Drain(round));
        assert!(directory.unregister(key, round, None));
        directory.get_or_register(key, indexed_as("t:Doc", "d"), at(1), || round + 100);
        assert_eq!(
            eviction.on_drain(&mut directory, "t", "Doc", "d", round, true),
            None,
            "a successor took the place"
        );
        assert!(directory.unregister(key, round + 100, None));
    }
    directory.get_or_register(key, indexed_as("t:Doc", "d"), at(1), || 9);
    assert_eq!(eviction.begin(&mut directory, "t", "Doc", "d"), EvictionStep::Done(false));
    assert!(is_registered(&directory, key));
}

#[test]
fn eviction_of_one_incarnation_spares_another() {
    let mut directory = order_directory("o", 3);
    let mut eviction = Eviction::new(Some(2));
    assert_eq!(
        eviction.begin(&mut directory, "default", "Order", "o"),
        EvictionStep::Done(false)
    );
    let mut right = Eviction::new(Some(3));
    assert_eq!(right.begin(&mut directory, "default", "Order", "o"), EvictionStep::Drain(3));
    assert_eq!(
        right.on_drain(&mut directory, "default", "Order", "o", 3, false),
        Some(false),
        "an actor that does not drain stays"
    );
    assert!(is_registered(&directory, "default:Order:o"));
    assert_eq!(right.on_drain(&mut directory, "default", "Order", "o", 3, true), Some(true));
    assert!(!is_registered(&directory, "default:Order:o"));
    assert!(!directory.collection.entity_exists("default", "Order", "o"));
    assert_eq!(
        right.on_drain(&mut directory, "default", "Order", "o", 3, true),
        Some(false),
        "an expected incarnation is never tried again"
    );
}

#[test]
fn removal_without_waiting() {
    let mut directory = order_directory("o", 3);
    assert_eq!(claim_removal(&mut directory, "default", "Order", "o"), Some(3));
    for (stop, end) in [
        (StopOutcome::Refused, RemovalEnd::Kept),
        (StopOutcome::Stopping { can_wait: false }, RemovalEnd::Kept),
        (StopOutcome::Stopping { can_wait: true }, RemovalEnd::Background),
    ] {
        assert_eq!(settle_removal(&mut directory, "default", "Order", "o", 3, stop), end);
        assert!(is_registered(&directory, "default:Order:o"));
    }
    assert_eq!(
        settle_removal(&mut directory, "default", "Order", "o", 4, StopOutcome::Stopped),
        RemovalEnd::Removed(false)
    );
    assert_eq!(
        settle_removal(&mut directory, "default", "Order", "o", 3, StopOutcome::Stopped),
        RemovalEnd::Removed(true)
    );
    assert!(!is_registered(&directory, "default:Order:o"));
    directory.collection.index.insert("default:Order", "o");
    assert_eq!(claim_removal(&mut directory, "default", "Order", "o"), None);
    assert!(!directory.collection.entity_exists("default", "Order", "o"));
}

#[test]
fn removing_by_expectation() {
    let mut directory = order_directory("o", 3);
    assert!(!directory.remove_entity_actor_incarnation_if_current("default", "Order", "o", None, true));
    assert!(!directory.remove_entity_actor_incarnation_if_current(
        "default",
        "Order",
        "o",
        Some(4),
        true
    ));
    assert!(directory.remove_entity_actor_incarnation_if_current(
        "default",
        "Order",
        "o",
        Some(3),
        false
    ));
    assert!(directory.collection.entity_exists("default", "Order", "o"));
    assert!(directory.remove_entity_actor_incarnation_if_current("default", "Order", "o", None, true));
    assert!(!directory.collection.entity_exists("default", "Order", "o"));
    assert_eq!(directory.remove_entity("default", "Order", "o"), None);
}
