//! Bringing an entity into memory from its durable history.

use vstd::prelude::*;
use vstd::string::*;

use crate::json::get_text;
use crate::json::json_wf;
use crate::json::text_field;
use crate::json::JsonValue;
use crate::text::same_text;

verus! {

/// How often a load starts over because its source changed underneath.
pub const LOAD_ATTEMPT_BUDGET: usize = 3;

/// How often an actor is materialized again after it was replaced.
pub const MATERIALIZATION_ATTEMPT_BUDGET: usize = 3;

// ---------------------------------------------------------------------------
// Tombstones
// ---------------------------------------------------------------------------

/// One event of an entity's journal.
pub struct JournalEvent {
    pub sequence_nr: u64,
    pub event_type: String,
    pub payload: JsonValue,
}

/// The event deletes its entity: by its type, or by the action it records.
pub open spec fn deletes(event: JournalEvent) -> bool {
    event.event_type@ == "Deleted"@ || text_field(event.payload, "action"@) == Some("Deleted"@)
}

/// Whether an event deletes its entity.
pub fn is_deleted_envelope(event: &JournalEvent) -> (r: bool)
    requires
        json_wf(event.payload),
    ensures
        r == deletes(*event),
{
    if same_text(event.event_type.as_str(), "Deleted") {
        return true;
    }
    match get_text(&event.payload, "action") {
        Some(action) => same_text(action.as_str(), "Deleted"),
        None => false,
    }
}

/// The sequence number of the first event that deletes its entity.
pub open spec fn first_tombstone(events: Seq<JournalEvent>) -> Option<u64>
    decreases events.len(),
{
    if events.len() == 0 {
        None
    } else if deletes(events[0]) {
        Some(events[0].sequence_nr)
    } else {
        first_tombstone(events.drop_first())
    }
}

/// The first tombstone is the number of an event that deletes its entity, with
/// none such before it; and there is one wherever an event deletes its entity.
pub proof fn lemma_first_tombstone(events: Seq<JournalEvent>)
    ensures
        first_tombstone(events) matches Some(n) ==> exists|i: int|
            0 <= i < events.len() && deletes(#[trigger] events[i]) && events[i].sequence_nr == n
                && forall|j: int| 0 <= j < i ==> !deletes(#[trigger] events[j]),
        first_tombstone(events) is None ==> forall|i: int|
            0 <= i < events.len() ==> !deletes(#[trigger] events[i]),
    decreases events.len(),
{
    if events.len() > 0 && !deletes(events[0]) {
        let rest = events.drop_first();
        lemma_first_tombstone(rest);
        if let Some(n) = first_tombstone(events) {
            let k = choose|i: int|
                0 <= i < rest.len() && deletes(#[trigger] rest[i]) && rest[i].sequence_nr == n
                    && forall|j: int| 0 <= j < i ==> !deletes(#[trigger] rest[j]);
            assert(rest[k] == events[k + 1]);
            assert forall|j: int| 0 <= j < k + 1 implies !deletes(#[trigger] events[j]) by {
                if j > 0 {
                    assert(rest[j - 1] == events[j]);
                }
            }
            assert(deletes(events[k + 1]) && events[k + 1].sequence_nr == n);
        } else {
            assert forall|i: int| 0 <= i < events.len() implies !deletes(#[trigger] events[i]) by {
                if i > 0 {
                    assert(rest[i - 1] == events[i]);
                }
            }
        }
    }
}

/// Every payload is well formed.
pub open spec fn events_wf(events: Seq<JournalEvent>) -> bool {
    forall|i: int| 0 <= i < events.len() ==> json_wf((#[trigger] events[i]).payload)
}

/// The first event that deletes its entity.
pub fn find_tombstone(events: &Vec<JournalEvent>) -> (r: Option<u64>)
    requires
        events_wf(events@),
    ensures
        r == first_tombstone(events@),
{
    let mut i: usize = 0;
    assert(events@.skip(0) =~= events@);
    while i < events.len()
        invariant
            i <= events@.len(),
            events_wf(events@),
            first_tombstone(events@) == first_tombstone(events@.skip(i as int)),
        decreases events@.len() - i,
    {
        assert(events@.skip(i as int)[0] == events@[i as int]);
        assert(events@.skip(i as int).drop_first() =~= events@.skip(i + 1));
        if is_deleted_envelope(&events[i]) {
            return Some(events[i].sequence_nr);
        }
        i += 1;
    }
    None
}

/// What a load from the journal comes to.
#[derive(Clone, Copy, PartialEq, Eq, Structural, Debug)]
pub enum LoadDecision {
    /// Whether the entity is there.
    Answer(bool),
    /// The entity is deleted: retire whatever serves it, fenced by the
    /// tombstone's sequence number. It is not there.
    Retire(u64),
    /// Spawn the actor; the entity is there if that succeeds.
    Materialize,
}

/// Decides a load from the events that the journal gave: `None` where there is
/// no journal or it could not be read.
pub fn ensure_entity_loaded(resident: bool, events: Option<&Vec<JournalEvent>>) -> (r: LoadDecision)
    requires
        events matches Some(list) ==> events_wf(list@),
    ensures
        r == (match events {
            None => LoadDecision::Answer(resident),
            Some(list) => if list@.len() == 0 {
                LoadDecision::Answer(resident)
            } else {
                match first_tombstone(list@) {
                    Some(sequence_nr) => LoadDecision::Retire(sequence_nr),
                    None => if resident {
                        LoadDecision::Answer(true)
                    } else {
                        LoadDecision::Materialize
                    },
                }
            },
        }),
        r matches LoadDecision::Answer(there) ==> there == resident,
        r is Materialize ==> !resident,
        events matches Some(list) ==> (r is Retire <==> exists|i: int|
            0 <= i < list@.len() && deletes(#[trigger] list@[i])),
        events matches Some(list) ==> r matches LoadDecision::Retire(sequence_nr) ==> exists|i: int|
            0 <= i < list@.len() && deletes(#[trigger] list@[i]) && list@[i].sequence_nr
                == sequence_nr && forall|j: int| 0 <= j < i ==> !deletes(#[trigger] list@[j]),
        events matches Some(list) ==> list@.len() > 0 && !resident ==> !(r is Answer),
        events is None ==> r is Answer,
{
    let list = match events {
        None => {
            return LoadDecision::Answer(resident);
        },
        Some(list) => list,
    };
    if list.len() == 0 {
        return LoadDecision::Answer(resident);
    }
    proof {
        lemma_first_tombstone(list@);
    }
    match find_tombstone(list) {
        Some(sequence_nr) => LoadDecision::Retire(sequence_nr),
        None => if resident {
            LoadDecision::Answer(true)
        } else {
            LoadDecision::Materialize
        },
    }
}

// ---------------------------------------------------------------------------
// Loads fenced by their source
// ---------------------------------------------------------------------------

/// What bounds an entity's journal.
#[derive(Clone, Copy, PartialEq, Eq, Structural, Debug)]
pub struct JournalBoundary {
    pub first_terminal_sequence: Option<u64>,
    pub latest_sequence: u64,
}

/// A stored snapshot.
pub struct CapturedSnapshot {
    pub sequence_nr: u64,
    pub state: Vec<u8>,
}

/// The two snapshots are the same.
pub open spec fn same_capture(a: CapturedSnapshot, b: CapturedSnapshot) -> bool {
    a.sequence_nr == b.sequence_nr && a.state@ == b.state@
}

/// Whether two snapshots are the same.
pub fn same_snapshot(a: &CapturedSnapshot, b: &CapturedSnapshot) -> (r: bool)
    ensures
        r == same_capture(*a, *b),
{
    if a.sequence_nr != b.sequence_nr || a.state.len() != b.state.len() {
        return false;
    }
    let mut i: usize = 0;
    while i < a.state.len()
        invariant
            i <= a.state@.len() == b.state@.len(),
            forall|j: int| 0 <= j < i ==> a.state@[j] == b.state@[j],
        decreases a.state@.len() - i,
    {
        if a.state[i] != b.state[i] {
            return false;
        }
        i += 1;
    }
    assert(a.state@ =~= b.state@);
    true
}

/// What a load does next.
#[derive(Clone, Copy, PartialEq, Eq, Structural, Debug)]
pub enum LoadStep {
    /// Read the journal's boundary.
    ReadBoundary,
    /// Read the snapshot.
    ReadSnapshot,
    /// Spawn the actor and ask it for its state.
    Spawn,
    /// Remove the entity from memory; it is not there.
    Remove,
    /// Stop and remove the actor; the entity is not there.
    StopAndRemove,
    /// Stop and remove the actor, then go on.
    StopAndRetry,
    /// Over; whether the entity is there.
    Done(bool),
}

/// What the spawned actor said of itself.
pub enum SpawnReport<'a> {
    /// No actor could be spawned.
    NoActor,
    /// The actor did not answer.
    NoAnswer,
    /// The actor answered.
    Answer(ActorReport<'a>),
}

/// A spawned actor's state, and what is known of its source.
pub struct ActorReport<'a> {
    /// The entity's status is `Deleted`.
    pub deleted: bool,
    /// The snapshot that the actor started from, where it started from one.
    pub used: Option<&'a CapturedSnapshot>,
    /// The boundary as read again, where it could be read.
    pub boundary: Option<JournalBoundary>,
    /// The snapshot as read again, where there is one.
    pub current: Option<&'a CapturedSnapshot>,
}

/// A load of one entity from its journal or its snapshot.
pub struct Loading {
    pub attempts_left: usize,
    pub resident: bool,
    pub captured: Option<CapturedSnapshot>,
}

/// The actor started from the captured snapshot, and that is still the whole
/// source.
pub open spec fn source_is_exact(captured: CapturedSnapshot, report: ActorReport<'_>) -> bool {
    &&& report.used matches Some(used) && same_capture(*used, captured)
    &&& report.boundary matches Some(boundary) && boundary.latest_sequence == 0
    &&& report.current matches Some(current) && same_capture(*current, captured)
}

impl Loading {
    /// A load that has not begun.
    pub fn new() -> (r: Loading)
        ensures
            r == (Loading {
                attempts_left: LOAD_ATTEMPT_BUDGET,
                resident: false,
                captured: None,
            }),
            r.attempts_left == 3,
    {
        Loading { attempts_left: LOAD_ATTEMPT_BUDGET, resident: false, captured: None }
    }

    /// Begins an attempt. Without a journal, what is resident is all there is.
    pub fn begin(&mut self, resident: bool, has_journal: bool) -> (r: LoadStep)
        ensures
            r == (if !has_journal {
                LoadStep::Done(resident)
            } else if old(self).attempts_left == 0 {
                LoadStep::Done(false)
            } else {
                LoadStep::ReadBoundary
            }),
            !has_journal ==> r == LoadStep::Done(resident),
            has_journal ==> r != LoadStep::Done(true),
            has_journal ==> (r is ReadBoundary <==> old(self).attempts_left > 0),
            r is Done ==> *final(self) == *old(self),
            r is ReadBoundary ==> final(self).attempts_left == old(self).attempts_left - 1
                && final(self).resident == resident && final(self).captured is None,
    {
        if !has_journal {
            return LoadStep::Done(resident);
        }
        if self.attempts_left == 0 {
            return LoadStep::Done(false);
        }
        self.attempts_left = self.attempts_left - 1;
        self.resident = resident;
        self.captured = None;
        LoadStep::ReadBoundary
    }

    /// Takes in the boundary, `None` where it could not be read.
    pub fn on_boundary(&self, boundary: Option<JournalBoundary>) -> (r: LoadStep)
        ensures
            r == (match boundary {
                None => LoadStep::Done(self.resident),
                Some(b) => if b.first_terminal_sequence is Some {
                    LoadStep::Remove
                } else if self.resident && b.latest_sequence > 0 {
                    LoadStep::Done(true)
                } else if b.latest_sequence == 0 {
                    LoadStep::ReadSnapshot
                } else {
                    LoadStep::Spawn
                },
            }),
            r matches LoadStep::Done(there) ==> there == self.resident,
            boundary is None ==> r is Done,
            r is Remove <==> (boundary matches Some(b) && b.first_terminal_sequence is Some),
            boundary matches Some(b) ==> r is Spawn || r is Done ==> b.latest_sequence > 0,
            boundary matches Some(b) ==> r is ReadSnapshot ==> b.latest_sequence == 0,
            r is Spawn ==> !self.resident,
    {
        match boundary {
            None => LoadStep::Done(self.resident),
            Some(b) => if b.first_terminal_sequence.is_some() {
                LoadStep::Remove
            } else if self.resident && b.latest_sequence > 0 {
                LoadStep::Done(true)
            } else if b.latest_sequence == 0 {
                LoadStep::ReadSnapshot
            } else {
                LoadStep::Spawn
            },
        }
    }

    /// Takes in the snapshot, `None` where there is none or it could not be
    /// read.
    pub fn on_snapshot(&mut self, snapshot: Option<CapturedSnapshot>) -> (r: LoadStep)
        ensures
            r == (if snapshot is Some {
                LoadStep::Spawn
            } else {
                LoadStep::Done(old(self).resident)
            }),
            r is Spawn <==> snapshot is Some,
            r matches LoadStep::Done(there) ==> there == old(self).resident,
            final(self).attempts_left == old(self).attempts_left,
            final(self).resident == old(self).resident,
            final(self).captured == (if snapshot is Some {
                snapshot
            } else {
                old(self).captured
            }),
    {
        match snapshot {
            None => LoadStep::Done(self.resident),
            Some(s) => {
                self.captured = Some(s);
                LoadStep::Spawn
            },
        }
    }

    /// Takes in what the spawned actor said.
    pub fn on_spawn(&self, report: SpawnReport<'_>) -> (r: LoadStep)
        ensures
            r == (match report {
                SpawnReport::NoActor => LoadStep::Done(false),
                SpawnReport::NoAnswer => LoadStep::StopAndRemove,
                SpawnReport::Answer(a) => if a.deleted {
                    LoadStep::StopAndRemove
                } else {
                    match self.captured {
                        None => LoadStep::Done(true),
                        Some(captured) => if source_is_exact(captured, a) {
                            LoadStep::Done(true)
                        } else {
                            LoadStep::StopAndRetry
                        },
                    }
                },
            }),
            r == LoadStep::Done(false) <==> report is NoActor,
            r is StopAndRemove <==> (report is NoAnswer || (report matches SpawnReport::Answer(a)
                && a.deleted)),
            r == LoadStep::Done(true) ==> (report matches SpawnReport::Answer(a) && !a.deleted),
            r is StopAndRetry ==> self.captured is Some,
            report matches SpawnReport::Answer(a) ==> self.captured matches Some(captured)
                ==> r == LoadStep::Done(true) ==> {
                &&& a.used is Some && a.used->0.state@ == captured.state@
                &&& a.used->0.sequence_nr == captured.sequence_nr
                &&& a.boundary is Some && a.boundary->0.latest_sequence == 0
                &&& a.current is Some && a.current->0.state@ == captured.state@
                &&& a.current->0.sequence_nr == captured.sequence_nr
            },
    {
        let answer = match report {
            SpawnReport::NoActor => {
                return LoadStep::Done(false);
            },
            SpawnReport::NoAnswer => {
                return LoadStep::StopAndRemove;
            },
            SpawnReport::Answer(a) => a,
        };
        if answer.deleted {
            return LoadStep::StopAndRemove;
        }
        let captured = match &self.captured {
            None => {
                return LoadStep::Done(true);
            },
            Some(c) => c,
        };
        let used: bool = match answer.used {
            Some(u) => same_snapshot(u, captured),
            None => false,
        };
        let quiet: bool = match answer.boundary {
            Some(b) => b.latest_sequence == 0,
            None => false,
        };
        let current: bool = match answer.current {
            Some(c) => same_snapshot(c, captured),
            None => false,
        };
        if used && quiet && current {
            LoadStep::Done(true)
        } else {
            LoadStep::StopAndRetry
        }
    }
}

/// A journal that holds a tombstone anywhere has a first one, so that a load
/// of its entity always retires it.
pub proof fn law_deleted_entities_are_not_loaded(events: Seq<JournalEvent>, i: int)
    requires
        0 <= i < events.len(),
        deletes(events[i]),
    ensures
        first_tombstone(events) is Some,
    decreases events.len(),
{
    if !deletes(events[0]) {
        assert(events.drop_first()[i - 1] == events[i]);
        law_deleted_entities_are_not_loaded(events.drop_first(), i - 1);
    }
}

// ---------------------------------------------------------------------------
// Materializing an actor
// ---------------------------------------------------------------------------

/// What an attempt to materialize an actor gave.
#[derive(Clone, Copy, PartialEq, Eq, Structural, Debug)]
pub enum Materialized {
    /// No actor became ready.
    NoActor,
    /// The actor answered that its entity is deleted.
    Deleted,
    /// The actor answered; whether it is the registered one and has not stopped.
    Answered { serving: bool },
    /// The actor did not answer; whether it could be evicted.
    NoAnswer { evicted: bool },
}

/// What to do after an attempt.
#[derive(Clone, Copy, PartialEq, Eq, Structural, Debug)]
pub enum MaterializeStep {
    /// Retire the deleted entity; it is not there.
    Retire,
    /// Try again.
    Again,
    /// Over; whether the actor serves the entity's durable state.
    Done(bool),
}

/// The step after an attempt that left `left` more.
pub open spec fn materialize_step(left: nat, got: Materialized) -> MaterializeStep {
    match got {
        Materialized::NoActor => MaterializeStep::Done(false),
        Materialized::Deleted => MaterializeStep::Retire,
        Materialized::Answered { serving: true } => MaterializeStep::Done(true),
        Materialized::NoAnswer { evicted: true } => MaterializeStep::Done(false),
        _ => if left == 0 {
            MaterializeStep::Done(false)
        } else {
            MaterializeStep::Again
        },
    }
}

/// Attempts to have an actor that serves the durable state.
#[derive(Clone, Copy, PartialEq, Eq, Structural, Debug)]
pub struct Materialization {
    pub attempts_left: usize,
}

impl Materialization {
    /// Before the first attempt.
    pub fn new() -> (r: Materialization)
        ensures
            r.attempts_left == MATERIALIZATION_ATTEMPT_BUDGET,
            r.attempts_left == 3,
    {
        Materialization { attempts_left: MATERIALIZATION_ATTEMPT_BUDGET }
    }

    /// Takes an attempt in.
    pub fn on_attempt(&mut self, got: Materialized) -> (r: MaterializeStep)
        requires
            old(self).attempts_left > 0,
        ensures
            final(self).attempts_left == old(self).attempts_left - 1,
            r == materialize_step(final(self).attempts_left as nat, got),
    {
        self.attempts_left = self.attempts_left - 1;
        match got {
            Materialized::NoActor => {
                return MaterializeStep::Done(false);
            },
            Materialized::Deleted => {
                return MaterializeStep::Retire;
            },
            Materialized::Answered { serving } => {
                if serving {
                    return MaterializeStep::Done(true);
                }
            },
            Materialized::NoAnswer { evicted } => {
                if evicted {
                    return MaterializeStep::Done(false);
                }
            },
        }
        if self.attempts_left == 0 {
            MaterializeStep::Done(false)
        } else {
            MaterializeStep::Again
        }
    }
}

/// Materialization ends: the last attempt always settles the matter.
pub proof fn law_materialization_ends(got: Materialized)
    ensures
        materialize_step(0, got) != MaterializeStep::Again,
{
}

/// An event deletes its entity by its type or by the action that it records, and by
/// nothing else.
pub proof fn law_deletions_are_told_by_type_or_action(event: JournalEvent)
    ensures
        event.event_type@ == "Deleted"@ ==> deletes(event),
        text_field(event.payload, "action"@) == Some("Deleted"@) ==> deletes(event),
        event.event_type@ != "Deleted"@ && text_field(event.payload, "action"@) is None
            ==> !deletes(event),
        event.event_type@ != "Deleted"@ && (text_field(event.payload, "action"@) matches Some(a)
            && a != "Deleted"@) ==> !deletes(event),
{
}

/// The tombstone of a journal is its first event that deletes: its sequence number is
/// given, and no event before it deletes.
pub proof fn law_the_first_deletion_counts(events: Seq<JournalEvent>)
    ensures
        first_tombstone(events) matches Some(n) ==> exists|i: int|
            0 <= i < events.len() && deletes(#[trigger] events[i]) && events[i].sequence_nr == n
                && forall|j: int| 0 <= j < i ==> !deletes(#[trigger] events[j]),
        first_tombstone(events) is None ==> forall|i: int|
            0 <= i < events.len() ==> !deletes(#[trigger] events[i]),
    decreases events.len(),
{
    if events.len() > 0 {
        let rest = events.drop_first();
        law_the_first_deletion_counts(rest);
        assert forall|j: int| 0 <= j < rest.len() implies #[trigger] rest[j] == events[j + 1] by {}
        if deletes(events[0]) {
            assert(first_tombstone(events) == Some(events[0].sequence_nr));
        } else if first_tombstone(rest) is Some {
            let n = first_tombstone(rest)->0;
            let i = choose|i: int|
                0 <= i < rest.len() && deletes(#[trigger] rest[i]) && rest[i].sequence_nr == n
                    && forall|j: int| 0 <= j < i ==> !deletes(#[trigger] rest[j]);
            assert(deletes(events[i + 1]));
            assert forall|j: int| 0 <= j < i + 1 implies !deletes(#[trigger] events[j]) by {
                if j > 0 {
                    assert(rest[j - 1] == events[j]);
                }
            }
        } else {
            assert forall|j: int| 0 <= j < events.len() implies !deletes(#[trigger] events[j]) by {
                if j > 0 {
                    assert(rest[j - 1] == events[j]);
                }
            }
        }
    }
}

/// A source is exact only where nothing moved: the actor started from the captured
/// snapshot, the journal is still empty, and the stored snapshot has the same number and
/// the same bytes.
pub proof fn law_changed_sources_are_not_exact(
    captured: CapturedSnapshot,
    report: ActorReport<'_>,
)
    ensures
        report.used is None ==> !source_is_exact(captured, report),
        report.boundary is None ==> !source_is_exact(captured, report),
        report.current is None ==> !source_is_exact(captured, report),
        report.boundary matches Some(b) ==> b.latest_sequence > 0 ==> !source_is_exact(
            captured,
            report,
        ),
        report.current matches Some(c) ==> c.sequence_nr != captured.sequence_nr || c.state@
            != captured.state@ ==> !source_is_exact(captured, report),
        report.used matches Some(u) ==> u.sequence_nr != captured.sequence_nr || u.state@
            != captured.state@ ==> !source_is_exact(captured, report),
        report.used == Some(&captured) && report.current == Some(&captured) && (
        report.boundary matches Some(b) && b.latest_sequence == 0) ==> source_is_exact(
            captured,
            report,
        ),
{
}

/// An actor counts as materialized only where it answered and serves; a deleted entity
/// is always retired; what never became an actor, or was evicted, is given up at once;
/// and anything else is tried again while attempts are left.
pub proof fn law_only_serving_actors_are_materialized(left: nat, got: Materialized)
    ensures
        materialize_step(left, got) == MaterializeStep::Done(true) <==> got == (
        Materialized::Answered { serving: true }),
        materialize_step(left, got) is Retire <==> got is Deleted,
        got is NoActor || got == (Materialized::NoAnswer { evicted: true }) ==> materialize_step(
            left,
            got,
        ) == MaterializeStep::Done(false),
        left > 0 && (got == (Materialized::Answered { serving: false }) || got == (
        Materialized::NoAnswer { evicted: false })) ==> materialize_step(left, got) is Again,
{
}

} // verus!
