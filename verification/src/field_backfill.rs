//! Backfill of the field index from stable snapshots and journals.

use vstd::prelude::*;
use vstd::string::*;

use crate::entity_load::deleted_status;
use crate::entity_load::is_deleted;
use crate::entity_load::StableEntitySource;
use crate::replay_parity::ids_of_type;
use crate::replay_parity::EntityRef;
use crate::sorted::SortedMap;

verus! {

/// How often the durable source of one entity is read.
pub const MAX_FIELD_BACKFILL_SOURCE_ATTEMPTS: u32 = 3;

/// What the backfill of one entity came to.
#[derive(Clone, Copy)]
pub enum FieldBackfillOutcome {
    /// Its row was written.
    Upserted { event_count: u64, sequence_nr: u64 },
    /// It is deleted, and its row was taken away.
    Removed { event_count: u64, sequence_nr: u64 },
    /// There is nothing behind its name.
    Empty { event_count: u64 },
}

/// One reading of an entity's durable source.
#[derive(Clone, Copy)]
pub enum SourceReading {
    /// The reading failed.
    Failed,
    /// There is no state.
    NoState,
    /// The replayed state.
    State { event_count: u64, has_snapshot: bool, sequence_nr: u64, deleted: bool },
}

impl SourceReading {
    /// What a backfill goes by in a stable reading; `None` where it failed.
    pub fn of(source: Option<&StableEntitySource>) -> (r: SourceReading)
        ensures
            r == (match source {
                None => SourceReading::Failed,
                Some(read) => match read.state {
                    None => SourceReading::NoState,
                    Some(state) => SourceReading::State {
                        event_count: state.total_event_count,
                        has_snapshot: read.snapshot is Some,
                        sequence_nr: read.durable_sequence,
                        deleted: state.status@ == deleted_status(),
                    },
                },
            }),
            r is Failed <==> source is None,
            source matches Some(read) ==> (r is NoState <==> read.state is None),
            r matches SourceReading::State { event_count, has_snapshot, sequence_nr, deleted } ==> {
                &&& sequence_nr == source->0.durable_sequence
                &&& event_count == source->0.state->0.total_event_count
                &&& has_snapshot == (source->0.snapshot is Some)
                &&& deleted == (source->0.state->0.status@ == "Deleted"@)
            },
    {
        match source {
            None => SourceReading::Failed,
            Some(read) => match &read.state {
                None => SourceReading::NoState,
                Some(state) => SourceReading::State {
                    event_count: state.total_event_count,
                    has_snapshot: read.snapshot.is_some(),
                    sequence_nr: read.durable_sequence,
                    deleted: is_deleted(state.status.as_str()),
                },
            },
        }
    }
}

/// What came of repairing the projection from a reading.
#[derive(Clone, Copy)]
pub enum RepairResult {
    /// The row now is what the reading says.
    Applied,
    /// The durable source changed meanwhile.
    SourceChanged,
    /// The repair failed.
    Failed,
}

/// One attempt: a reading and, where one was due, the repair from it.
#[derive(Clone, Copy)]
pub struct FieldAttempt {
    pub reading: SourceReading,
    pub repair: RepairResult,
}

/// What a reading settles by itself.
pub open spec fn settled_by_reading(reading: SourceReading) -> Option<FieldBackfillOutcome> {
    match reading {
        SourceReading::Failed => None,
        SourceReading::NoState => Some(FieldBackfillOutcome::Empty { event_count: 0 }),
        SourceReading::State { event_count, has_snapshot, sequence_nr, .. } => if event_count == 0
            && !has_snapshot && sequence_nr == 0 {
            Some(FieldBackfillOutcome::Empty { event_count })
        } else {
            None
        },
    }
}

/// The reading calls for a repair of the projection.
pub open spec fn calls_for_repair(reading: SourceReading) -> bool {
    reading is State && settled_by_reading(reading) is None
}

/// What an attempt settles.
pub open spec fn settled_by(attempt: FieldAttempt) -> Option<FieldBackfillOutcome> {
    if settled_by_reading(attempt.reading) is Some {
        settled_by_reading(attempt.reading)
    } else {
        match attempt.reading {
            SourceReading::State { event_count, sequence_nr, deleted, .. } =>
                if attempt.repair is Applied {
                if deleted {
                    Some(FieldBackfillOutcome::Removed { event_count, sequence_nr })
                } else {
                    Some(FieldBackfillOutcome::Upserted { event_count, sequence_nr })
                }
            } else {
                None
            },
            _ => None,
        }
    }
}

/// The first attempt that settles anything decides.
pub open spec fn outcome_of(attempts: Seq<FieldAttempt>) -> Option<FieldBackfillOutcome>
    decreases attempts.len(),
{
    if attempts.len() == 0 {
        None
    } else {
        let before = outcome_of(attempts.drop_last());
        if before is Some {
            before
        } else {
            settled_by(attempts.last())
        }
    }
}

/// The event count that is reported when no attempt settled anything: that of
/// the last reading that brought a state.
pub open spec fn last_count_of(attempts: Seq<FieldAttempt>) -> u64
    decreases attempts.len(),
{
    if attempts.len() == 0 {
        0
    } else {
        match attempts.last().reading {
            SourceReading::State { event_count, .. } => event_count,
            _ => last_count_of(attempts.drop_last()),
        }
    }
}

/// What is to be done next for an entity.
#[derive(Clone, Copy)]
pub enum FieldAction {
    /// Read the durable source.
    Read,
    /// Repair the projection from the reading just made.
    Repair,
    /// Nothing: the entity is settled or all attempts are used.
    Stop,
}

/// The backfill of one entity under way.
pub struct FieldBackfill {
    used: u32,
    last_event_count: u64,
    outcome: Option<FieldBackfillOutcome>,
    reading: Option<SourceReading>,
    history: Ghost<Seq<FieldAttempt>>,
}

impl FieldBackfill {
    /// The attempts that are finished.
    pub closed spec fn attempts(&self) -> Seq<FieldAttempt> {
        self.history@
    }

    /// The reading whose repair is due.
    pub closed spec fn due(&self) -> Option<SourceReading> {
        self.reading
    }

    pub closed spec fn wf(&self) -> bool {
        &&& self.used == self.history@.len() + (if self.reading is Some {
            1int
        } else {
            0int
        })
        &&& self.used <= MAX_FIELD_BACKFILL_SOURCE_ATTEMPTS
        &&& self.outcome == outcome_of(self.history@)
        &&& self.outcome is Some ==> self.reading is None
        &&& self.reading matches Some(r) ==> calls_for_repair(r)
        &&& self.last_event_count == match self.reading {
            Some(SourceReading::State { event_count, .. }) => event_count,
            _ => last_count_of(self.history@),
        }
    }

    /// What is to be done next.
    pub open spec fn next(&self) -> FieldAction {
        if self.due() is Some {
            FieldAction::Repair
        } else if outcome_of(self.attempts()) is Some || self.attempts().len()
            >= MAX_FIELD_BACKFILL_SOURCE_ATTEMPTS {
            FieldAction::Stop
        } else {
            FieldAction::Read
        }
    }

    /// Before the first attempt.
    pub fn new() -> (r: FieldBackfill)
        ensures
            r.wf(),
            r.attempts() == Seq::<FieldAttempt>::empty(),
            r.due() is None,
    {
        FieldBackfill {
            used: 0,
            last_event_count: 0,
            outcome: None,
            reading: None,
            history: Ghost(Seq::empty()),
        }
    }

    /// What is to be done next.
    pub fn action(&self) -> (r: FieldAction)
        requires
            self.wf(),
        ensures
            r == self.next(),
    {
        if self.reading.is_some() {
            FieldAction::Repair
        } else if self.outcome.is_some() || self.used >= MAX_FIELD_BACKFILL_SOURCE_ATTEMPTS {
            FieldAction::Stop
        } else {
            FieldAction::Read
        }
    }

    /// Takes a reading of the durable source.
    pub fn on_reading(&mut self, reading: SourceReading)
        requires
            old(self).wf(),
            old(self).next() is Read,
        ensures
            final(self).wf(),
            calls_for_repair(reading) ==> final(self).attempts() == old(self).attempts()
                && final(self).due() == Some(reading),
            !calls_for_repair(reading) ==> final(self).due() is None && final(self).attempts()
                == old(self).attempts().push(
                FieldAttempt { reading, repair: RepairResult::Failed },
            ),
    {
        self.used = self.used + 1;
        let ghost attempt = FieldAttempt { reading, repair: RepairResult::Failed };
        match reading {
            SourceReading::Failed => {
                self.history = Ghost(self.history@.push(attempt));
            },
            SourceReading::NoState => {
                self.outcome = Some(FieldBackfillOutcome::Empty { event_count: 0 });
                self.history = Ghost(self.history@.push(attempt));
            },
            SourceReading::State { event_count, has_snapshot, sequence_nr, .. } => {
                self.last_event_count = event_count;
                if event_count == 0 && !has_snapshot && sequence_nr == 0 {
                    self.outcome = Some(FieldBackfillOutcome::Empty { event_count });
                    self.history = Ghost(self.history@.push(attempt));
                } else {
                    self.reading = Some(reading);
                }
            },
        }
        assert(old(self).history@.push(attempt).drop_last() =~= old(self).history@);
    }

    /// Takes the result of the repair that was due.
    pub fn on_repair(&mut self, repair: RepairResult)
        requires
            old(self).wf(),
            old(self).next() is Repair,
        ensures
            final(self).wf(),
            final(self).due() is None,
            final(self).attempts() == old(self).attempts().push(
                FieldAttempt { reading: old(self).due()->0, repair },
            ),
    {
        let ghost attempt = FieldAttempt { reading: self.reading->0, repair };
        match self.reading {
            Some(SourceReading::State { event_count, sequence_nr, deleted, .. }) => {
                match repair {
                    RepairResult::Applied => {
                        self.outcome = if deleted {
                            Some(FieldBackfillOutcome::Removed { event_count, sequence_nr })
                        } else {
                            Some(FieldBackfillOutcome::Upserted { event_count, sequence_nr })
                        };
                    },
                    _ => {},
                }
            },
            _ => {},
        }
        self.reading = None;
        self.history = Ghost(self.history@.push(attempt));
        assert(self.history@.drop_last() =~= old(self).history@);
    }

    /// What the backfill of the entity came to, and the event count to report.
    pub fn finish(&self) -> (r: (Option<FieldBackfillOutcome>, u64))
        requires
            self.wf(),
            self.next() is Stop,
        ensures
            r.0 == outcome_of(self.attempts()),
            r.1 == last_count_of(self.attempts()),
    {
        (self.outcome, self.last_event_count)
    }
}

/// No entity is read more often than allowed, and one that is given up was
/// either settled or read that often.
pub proof fn law_field_backfill_is_bounded(run: FieldBackfill)
    requires
        run.wf(),
    ensures
        run.attempts().len() <= MAX_FIELD_BACKFILL_SOURCE_ATTEMPTS,
        run.next() is Stop && outcome_of(run.attempts()) is None ==> run.attempts().len()
            == MAX_FIELD_BACKFILL_SOURCE_ATTEMPTS,
{
}

/// The first attempt that settles an entity settles it for good.
pub proof fn law_settled_entities_stay_settled(attempts: Seq<FieldAttempt>, more: FieldAttempt)
    requires
        outcome_of(attempts) is Some,
    ensures
        outcome_of(attempts.push(more)) == outcome_of(attempts),
{
    assert(attempts.push(more).drop_last() =~= attempts);
}

// ---------------------------------------------------------------------------
// What is counted
// ---------------------------------------------------------------------------

/// What is measured of one entity.
pub struct FieldBackfillSample {
    pub replay_result: &'static str,
    pub entity_result: &'static str,
    pub event_count: u64,
    /// The operation and the sequence number that were applied.
    pub applied: Option<(&'static str, u64)>,
}

/// What is measured of an outcome.
pub fn field_backfill_sample(outcome: Option<FieldBackfillOutcome>, last_event_count: u64) -> (r:
    FieldBackfillSample)
    ensures
        match outcome {
            Some(FieldBackfillOutcome::Upserted { event_count, sequence_nr }) => {
                &&& r.replay_result@ == "ok"@
                &&& r.entity_result@ == "ok"@
                &&& r.event_count == event_count
                &&& r.applied matches Some(a) && a.0@ == "upsert"@ && a.1 == sequence_nr
            },
            Some(FieldBackfillOutcome::Removed { event_count, sequence_nr }) => {
                &&& r.replay_result@ == "deleted"@
                &&& r.entity_result@ == "deleted_removed"@
                &&& r.event_count == event_count
                &&& r.applied matches Some(a) && a.0@ == "remove"@ && a.1 == sequence_nr
            },
            Some(FieldBackfillOutcome::Empty { event_count }) => {
                &&& r.replay_result@ == "empty"@
                &&& r.entity_result@ == "empty"@
                &&& r.event_count == event_count
                &&& r.applied is None
            },
            None => {
                &&& r.replay_result@ == "error"@
                &&& r.entity_result@ == "error"@
                &&& r.event_count == last_event_count
                &&& r.applied is None
            },
        },
        r.applied is Some <==> (outcome is Some && outcome->0 !is Empty),
        outcome is None ==> r.event_count == last_event_count && r.replay_result@ == "error"@,
        r.applied matches Some(a) ==> a.1 == (match outcome->0 {
            FieldBackfillOutcome::Upserted { sequence_nr, .. } => sequence_nr,
            FieldBackfillOutcome::Removed { sequence_nr, .. } => sequence_nr,
            FieldBackfillOutcome::Empty { .. } => 0,
        }),
        outcome matches Some(FieldBackfillOutcome::Removed { .. }) ==> r.entity_result@
            == "deleted_removed"@ && (r.applied matches Some(a) && a.0@ == "remove"@),
        outcome matches Some(FieldBackfillOutcome::Upserted { .. }) ==> r.entity_result@ == "ok"@
            && (r.applied matches Some(a) && a.0@ == "upsert"@),
        r.replay_result@ == "ok"@ ==> r.entity_result@ == "ok"@,
{
    proof {
        reveal_strlit("ok");
        reveal_strlit("deleted");
        reveal_strlit("empty");
        reveal_strlit("error");
        assert("ok"@.len() == 2);
        assert("deleted"@.len() == 7);
        assert("empty"@.len() == 5);
        assert("error"@.len() == 5);
    }
    match outcome {
        Some(FieldBackfillOutcome::Upserted { event_count, sequence_nr }) => FieldBackfillSample {
            replay_result: "ok",
            entity_result: "ok",
            event_count,
            applied: Some(("upsert", sequence_nr)),
        },
        Some(FieldBackfillOutcome::Removed { event_count, sequence_nr }) => FieldBackfillSample {
            replay_result: "deleted",
            entity_result: "deleted_removed",
            event_count,
            applied: Some(("remove", sequence_nr)),
        },
        Some(FieldBackfillOutcome::Empty { event_count }) => FieldBackfillSample {
            replay_result: "empty",
            entity_result: "empty",
            event_count,
            applied: None,
        },
        None => FieldBackfillSample {
            replay_result: "error",
            entity_result: "error",
            event_count: last_event_count,
            applied: None,
        },
    }
}

/// The counts of a whole backfill.
pub struct FieldBackfillCounts {
    pub total: usize,
    pub indexed: usize,
    pub errors: usize,
}

/// How one entity of a backfill ended.
#[derive(Clone, Copy)]
pub enum FieldEntityEnd {
    /// No transition table to replay with.
    MissingTable,
    /// The backfill ran and came to this.
    Ran(Option<FieldBackfillOutcome>),
}

pub open spec fn is_indexed(end: FieldEntityEnd) -> bool {
    end matches FieldEntityEnd::Ran(Some(o)) && o is Upserted
}

pub open spec fn is_error(end: FieldEntityEnd) -> bool {
    match end {
        FieldEntityEnd::MissingTable => true,
        FieldEntityEnd::Ran(None) => true,
        FieldEntityEnd::Ran(Some(o)) => o is Empty,
    }
}

/// How many of the entities ended in a given way.
pub open spec fn ends(all: Seq<FieldEntityEnd>, p: spec_fn(FieldEntityEnd) -> bool) -> nat
    decreases all.len(),
{
    if all.len() == 0 {
        0
    } else {
        ends(all.drop_last(), p) + (if p(all.last()) {
            1nat
        } else {
            0nat
        })
    }
}

/// Counts a whole backfill. An entity whose row was taken away is neither
/// indexed nor an error.
pub fn count_field_backfill(all: &Vec<FieldEntityEnd>) -> (r: FieldBackfillCounts)
    ensures
        r.total == all@.len(),
        r.indexed == ends(all@, |e: FieldEntityEnd| is_indexed(e)),
        r.errors == ends(all@, |e: FieldEntityEnd| is_error(e)),
        r.indexed + r.errors <= r.total,
{
    let mut indexed: usize = 0;
    let mut errors: usize = 0;
    let mut i: usize = 0;
    while i < all.len()
        invariant
            i <= all@.len(),
            indexed + errors <= i,
            indexed == ends(all@.take(i as int), |e: FieldEntityEnd| is_indexed(e)),
            errors == ends(all@.take(i as int), |e: FieldEntityEnd| is_error(e)),
        decreases all@.len() - i,
    {
        assert(all@.take(i + 1).drop_last() =~= all@.take(i as int));
        match all[i] {
            FieldEntityEnd::MissingTable => {
                errors += 1;
            },
            FieldEntityEnd::Ran(None) => {
                errors += 1;
            },
            FieldEntityEnd::Ran(Some(FieldBackfillOutcome::Empty { .. })) => {
                errors += 1;
            },
            FieldEntityEnd::Ran(Some(FieldBackfillOutcome::Upserted { .. })) => {
                indexed += 1;
            },
            FieldEntityEnd::Ran(Some(FieldBackfillOutcome::Removed { .. })) => {},
        }
        i += 1;
    }
    assert(all@.take(all@.len() as int) =~= all@);
    FieldBackfillCounts { total: all.len(), indexed, errors }
}

// ---------------------------------------------------------------------------
// The entities of a backfill
// ---------------------------------------------------------------------------

/// The ids that the store lists for a type; `None` where listing failed.
pub struct TypeListing {
    pub entity_type: String,
    pub ids: Option<Vec<String>>,
}

/// The model of a persisted entity.
pub open spec fn entity_view(e: EntityRef) -> (Seq<char>, Seq<char>) {
    (e.entity_type@, e.entity_id@)
}

pub open spec fn entity_views(entities: Seq<EntityRef>) -> Seq<(Seq<char>, Seq<char>)> {
    entities.map_values(|e: EntityRef| entity_view(e))
}

/// The entities of one listing.
pub open spec fn listed(listing: TypeListing) -> Seq<(Seq<char>, Seq<char>)> {
    match listing.ids {
        Some(ids) => ids@.map_values(|id: String| (listing.entity_type@, id@)),
        None => Seq::empty(),
    }
}

/// The entities of all listings, in order; a failed listing has none.
pub open spec fn all_listed(listings: Seq<TypeListing>) -> Seq<(Seq<char>, Seq<char>)>
    decreases listings.len(),
{
    if listings.len() == 0 {
        Seq::empty()
    } else {
        all_listed(listings.drop_last()) + listed(listings.last())
    }
}

/// The entities that the store lists, type after type.
pub fn collect_listed_entities(listings: &Vec<TypeListing>) -> (r: Vec<EntityRef>)
    ensures
        entity_views(r@) == all_listed(listings@),
{
    let mut out: Vec<EntityRef> = Vec::new();
    let mut i: usize = 0;
    assert(entity_views(out@) =~= Seq::<(Seq<char>, Seq<char>)>::empty());
    while i < listings.len()
        invariant
            i <= listings@.len(),
            entity_views(out@) == all_listed(listings@.take(i as int)),
        decreases listings@.len() - i,
    {
        let listing: &TypeListing = &listings[i];
        let ghost done = entity_views(out@);
        match &listing.ids {
            Some(ids) => {
                let mut j: usize = 0;
                assert(entity_views(out@) =~= done + listed(*listing).take(0));
                while j < ids.len()
                    invariant
                        j <= ids@.len(),
                        listing.ids == Some(*ids),
                        entity_views(out@) == done + listed(*listing).take(j as int),
                    decreases ids@.len() - j,
                {
                    let ghost prior = entity_views(out@);
                    out.push(
                        EntityRef {
                            entity_type: listing.entity_type.clone(),
                            entity_id: ids[j].clone(),
                        },
                    );
                    proof {
                        let e = (listing.entity_type@, ids@[j as int]@);
                        assert(listed(*listing)[j as int] == e);
                        assert(entity_views(out@) =~= prior.push(e));
                        assert(listed(*listing).take(j + 1) =~= listed(*listing).take(
                            j as int,
                        ).push(e));
                        assert(entity_views(out@) =~= done + listed(*listing).take(j + 1));
                    }
                    j += 1;
                }
                assert(listed(*listing).take(ids@.len() as int) =~= listed(*listing));
            },
            None => {
                assert(done + listed(*listing) =~= done);
            },
        }
        proof {
            assert(listings@.take(i + 1).drop_last() =~= listings@.take(i as int));
        }
        i += 1;
    }
    assert(listings@.take(listings@.len() as int) =~= listings@);
    out
}

/// The entities that a backfill goes through: none without a journal to replay
/// from or projections to write to.
pub fn populate_field_index_from_snapshots(
    has_journal: bool,
    has_query_plane: bool,
    listings: &Vec<TypeListing>,
) -> (r: Vec<EntityRef>)
    ensures
        entity_views(r@) == if has_journal && has_query_plane {
            all_listed(listings@)
        } else {
            Seq::empty()
        },
{
    if has_journal && has_query_plane {
        collect_listed_entities(listings)
    } else {
        let none: Vec<EntityRef> = Vec::new();
        assert(entity_views(none@) =~= Seq::<(Seq<char>, Seq<char>)>::empty());
        none
    }
}

/// How many entities of each type are considered.
pub fn count_by_type(entities: &Vec<EntityRef>) -> (r: SortedMap<String, u64>)
    ensures
        r.wf(),
        forall|t: Seq<char>|
            #![trigger r@.dom().contains(t)]
            r@.dom().contains(t) == (ids_of_type(entities@, t).len() > 0),
        forall|t: Seq<char>|
            #![trigger r@[t]]
            r@.dom().contains(t) ==> r@[t] == ids_of_type(entities@, t).len(),
{
    let mut counts: SortedMap<String, u64> = SortedMap::new();
    let mut i: usize = 0;
    while i < entities.len()
        invariant
            i <= entities@.len(),
            counts.wf(),
            forall|t: Seq<char>|
                #![trigger counts@.dom().contains(t)]
                counts@.dom().contains(t) == (ids_of_type(entities@.take(i as int), t).len() > 0),
            forall|t: Seq<char>|
                #![trigger counts@[t]]
                counts@.dom().contains(t) ==> counts@[t] == ids_of_type(
                    entities@.take(i as int),
                    t,
                ).len(),
            forall|t: Seq<char>| #[trigger]
                ids_of_type(entities@.take(i as int), t).len() <= i,
        decreases entities@.len() - i,
    {
        let e: &EntityRef = &entities[i];
        let prior: u64 = match counts.get(&e.entity_type) {
            Some(n) => *n,
            None => 0,
        };
        let ghost seen = entities@.take(i as int);
        let ghost next = entities@.take(i + 1);
        let ghost old_counts = counts@;
        proof {
            assert(next.drop_last() =~= seen);
            assert(next.last() == entities@[i as int]);
            assert(old_counts.dom().contains(e.entity_type@) || ids_of_type(
                seen,
                e.entity_type@,
            ).len() == 0);
            assert(prior == ids_of_type(seen, e.entity_type@).len());
            assert(prior <= i);
        }
        let _ = counts.insert(e.entity_type.clone(), prior + 1);
        proof {
            assert forall|t: Seq<char>| #[trigger] ids_of_type(next, t).len() <= i + 1 by {
                assert(ids_of_type(seen, t).len() <= i);
            }
            assert forall|t: Seq<char>|
                #![trigger counts@.dom().contains(t)]
                counts@.dom().contains(t) == (ids_of_type(next, t).len() > 0) by {
                assert(old_counts.dom().contains(t) == (ids_of_type(seen, t).len() > 0));
            }
        }
        i += 1;
    }
    assert(entities@.take(entities@.len() as int) =~= entities@);
    counts
}

/// The attempt left a row of the entity in the index.
pub open spec fn wrote_row(attempt: FieldAttempt, events: u64, sequence: u64) -> bool {
    attempt.repair is Applied && (attempt.reading matches SourceReading::State {
        event_count,
        sequence_nr,
        deleted,
        ..
    } && !deleted && event_count == events && sequence_nr == sequence)
}

/// The attempt took the row of a deleted entity away.
pub open spec fn took_row(attempt: FieldAttempt, events: u64, sequence: u64) -> bool {
    attempt.repair is Applied && (attempt.reading matches SourceReading::State {
        event_count,
        sequence_nr,
        deleted,
        ..
    } && deleted && event_count == events && sequence_nr == sequence)
}

/// The attempt found that nothing stands behind the name: no state, or one without any
/// event, snapshot or sequence number.
pub open spec fn found_nothing(attempt: FieldAttempt) -> bool {
    attempt.reading is NoState || (attempt.reading matches SourceReading::State {
        event_count,
        has_snapshot,
        sequence_nr,
        ..
    } && event_count == 0 && !has_snapshot && sequence_nr == 0)
}

/// An entity is reported as written, as removed or as empty only where some attempt did
/// or found just that; and as failed only where none came to anything.
pub proof fn law_outcomes_say_what_was_done(attempts: Seq<FieldAttempt>)
    ensures
        match outcome_of(attempts) {
            Some(FieldBackfillOutcome::Upserted { event_count, sequence_nr }) => exists|i: int|
                0 <= i < attempts.len() && wrote_row(
                    #[trigger] attempts[i],
                    event_count,
                    sequence_nr,
                ),
            Some(FieldBackfillOutcome::Removed { event_count, sequence_nr }) => exists|i: int|
                0 <= i < attempts.len() && took_row(
                    #[trigger] attempts[i],
                    event_count,
                    sequence_nr,
                ),
            Some(FieldBackfillOutcome::Empty { event_count }) => event_count == 0 && exists|i: int|
                0 <= i < attempts.len() && found_nothing(#[trigger] attempts[i]),
            None => forall|i: int|
                0 <= i < attempts.len() ==> !found_nothing(#[trigger] attempts[i]) && !(
                attempts[i].reading is State && attempts[i].repair is Applied),
        },
    decreases attempts.len(),
{
    if attempts.len() > 0 {
        let before = attempts.drop_last();
        law_outcomes_say_what_was_done(before);
        let n = attempts.len() - 1;
        assert(attempts[n] == attempts.last());
        assert forall|i: int| 0 <= i < before.len() implies #[trigger] before[i]
            == attempts[i] by {}
        match outcome_of(before) {
            Some(FieldBackfillOutcome::Upserted { event_count, sequence_nr }) => {
                let i = choose|i: int|
                    0 <= i < before.len() && wrote_row(
                        #[trigger] before[i],
                        event_count,
                        sequence_nr,
                    );
                assert(wrote_row(attempts[i], event_count, sequence_nr));
            },
            Some(FieldBackfillOutcome::Removed { event_count, sequence_nr }) => {
                let i = choose|i: int|
                    0 <= i < before.len() && took_row(
                        #[trigger] before[i],
                        event_count,
                        sequence_nr,
                    );
                assert(took_row(attempts[i], event_count, sequence_nr));
            },
            Some(FieldBackfillOutcome::Empty { .. }) => {
                let i = choose|i: int|
                    0 <= i < before.len() && found_nothing(#[trigger] before[i]);
                assert(found_nothing(attempts[i]));
            },
            None => {
                assert forall|i: int| 0 <= i < n implies !found_nothing(#[trigger] attempts[i])
                    && !(attempts[i].reading is State && attempts[i].repair is Applied) by {
                    assert(before[i] == attempts[i]);
                }
                match outcome_of(attempts) {
                    Some(FieldBackfillOutcome::Upserted { event_count, sequence_nr }) => {
                        assert(wrote_row(attempts[n], event_count, sequence_nr));
                    },
                    Some(FieldBackfillOutcome::Removed { event_count, sequence_nr }) => {
                        assert(took_row(attempts[n], event_count, sequence_nr));
                    },
                    Some(FieldBackfillOutcome::Empty { .. }) => {
                        assert(found_nothing(attempts[n]));
                    },
                    None => {},
                }
            },
        }
    }
}

/// Every state with a trace is written to the projection: events, a snapshot or a
/// sequence number. What could not be read, and what is not there, is not.
pub proof fn law_states_with_a_trace_are_repaired(reading: SourceReading)
    ensures
        reading matches SourceReading::State { event_count, has_snapshot, sequence_nr, .. }
            ==> calls_for_repair(reading) == (event_count > 0 || has_snapshot || sequence_nr > 0),
        !(reading is State) ==> !calls_for_repair(reading),
{
}

/// The count that is reported is that of the last state that was read.
pub proof fn law_the_last_count_is_reported(attempts: Seq<FieldAttempt>, i: int)
    requires
        0 <= i < attempts.len(),
        attempts[i].reading is State,
        forall|j: int|
            i < j < attempts.len() ==> !((#[trigger] attempts[j]).reading is State),
    ensures
        attempts[i].reading matches SourceReading::State { event_count, .. } && last_count_of(
            attempts,
        ) == event_count,
    decreases attempts.len(),
{
    if i < attempts.len() - 1 {
        let before = attempts.drop_last();
        assert(!(attempts[attempts.len() - 1].reading is State));
        assert forall|j: int| i < j < before.len() implies !((#[trigger] before[j]).reading
            is State) by {
            assert(before[j] == attempts[j]);
        }
        law_the_last_count_is_reported(before, i);
    }
}

proof fn lemma_ends_is_a_number_of_places(
    all: Seq<FieldEntityEnd>,
    p: spec_fn(FieldEntityEnd) -> bool,
    q: spec_fn(FieldEntityEnd) -> bool,
)
    requires
        forall|e: FieldEntityEnd| #[trigger] p(e) == q(e),
    ensures
        ends(all, p) == all.filter(q).len(),
    decreases all.len(),
{
    reveal(Seq::filter);
    if all.len() > 0 {
        lemma_ends_is_a_number_of_places(all.drop_last(), p, q);
        assert(p(all.last()) == q(all.last()));
    }
}

/// Those whose row was written are indexed. Those without a table, those that came to
/// nothing and those with nothing behind them are errors; one whose row was taken away
/// is neither.
pub proof fn law_field_counts_are_those_of_the_entities(all: Seq<FieldEntityEnd>)
    ensures
        ends(all, |e: FieldEntityEnd| is_indexed(e)) == all.filter(
            |e: FieldEntityEnd| e is Ran && e->Ran_0 is Some && e->Ran_0->0 is Upserted,
        ).len(),
        ends(all, |e: FieldEntityEnd| is_error(e)) == all.filter(
            |e: FieldEntityEnd|
                e is MissingTable || e->Ran_0 is None || e->Ran_0->0 is Empty,
        ).len(),
        ends(all, |e: FieldEntityEnd| is_indexed(e)) + ends(
            all,
            |e: FieldEntityEnd| is_error(e),
        ) + all.filter(
            |e: FieldEntityEnd| e is Ran && e->Ran_0 is Some && e->Ran_0->0 is Removed,
        ).len() == all.len(),
    decreases all.len(),
{
    lemma_ends_is_a_number_of_places(
        all,
        |e: FieldEntityEnd| is_indexed(e),
        |e: FieldEntityEnd| e is Ran && e->Ran_0 is Some && e->Ran_0->0 is Upserted,
    );
    lemma_ends_is_a_number_of_places(
        all,
        |e: FieldEntityEnd| is_error(e),
        |e: FieldEntityEnd| e is MissingTable || e->Ran_0 is None || e->Ran_0->0 is Empty,
    );
    reveal(Seq::filter);
    if all.len() > 0 {
        law_field_counts_are_those_of_the_entities(all.drop_last());
    }
}

/// A backfill goes through exactly the entities that some listing names: each id under
/// the type of its listing.
pub proof fn law_listed_entities_are_those_of_the_listings(
    listings: Seq<TypeListing>,
    entity_type: Seq<char>,
    id: Seq<char>,
)
    ensures
        all_listed(listings).contains((entity_type, id)) <==> exists|i: int, j: int|
            0 <= i < listings.len() && listings[i].entity_type@ == entity_type && listings[i].ids
                is Some && 0 <= j < listings[i].ids->0@.len() && #[trigger] listings[i].ids->0@[j]@
                == id,
    decreases listings.len(),
{
    if listings.len() > 0 {
        let before = listings.drop_last();
        let n = listings.len() - 1;
        law_listed_entities_are_those_of_the_listings(before, entity_type, id);
        let pair = (entity_type, id);
        let front = all_listed(before);
        let back = listed(listings[n]);
        let all = all_listed(listings);
        assert(all == front + back);
        if all.contains(pair) {
            let k = choose|k: int| 0 <= k < all.len() && all[k] == pair;
            if k < front.len() {
                assert(front[k] == pair);
                let (i, j) = choose|i: int, j: int|
                    0 <= i < before.len() && before[i].entity_type@ == entity_type && before[i].ids
                        is Some && 0 <= j < before[i].ids->0@.len() && #[trigger] before[i].ids->0@[j]@
                        == id;
                assert(listings[i].ids->0@[j]@ == id);
            } else {
                let j = k - front.len();
                assert(back[j] == pair);
                assert(listings[n].ids->0@[j]@ == id);
            }
        }
        if exists|i: int, j: int|
            0 <= i < listings.len() && listings[i].entity_type@ == entity_type && listings[i].ids
                is Some && 0 <= j < listings[i].ids->0@.len() && #[trigger] listings[i].ids->0@[j]@
                == id {
            let (i, j) = choose|i: int, j: int|
                0 <= i < listings.len() && listings[i].entity_type@ == entity_type
                    && listings[i].ids is Some && 0 <= j < listings[i].ids->0@.len()
                    && #[trigger] listings[i].ids->0@[j]@ == id;
            if i < n {
                assert(before[i].ids->0@[j]@ == id);
                let k = choose|k: int| 0 <= k < front.len() && front[k] == pair;
                assert(all[k] == pair);
            } else {
                assert(back[j] == pair);
                assert(all[front.len() + j] == pair);
            }
        }
    }
}

} // verus!
