//! Reconciliation of the vector index with every durable stream.

use vstd::prelude::*;
use vstd::string::*;

use crate::entity_load::EntityLoadOutcome;
use crate::sorted::lemma_to_set_step;
use crate::sorted::SortedMap;
use crate::sorted::SortedSet;
use crate::spec_catalog::absent_declaration;
use crate::spec_catalog::absent_fingerprint;
use crate::text::same_text;

verus! {

/// The types that a reconciliation looks at: those declared now, those with a
/// watermark, and those whose reconciliation was begun before.
pub fn vector_backfill_work_types(
    current_types: &SortedSet<String>,
    covered: &SortedMap<String, String>,
    reconciliation_types: &SortedSet<String>,
) -> (r: SortedSet<String>)
    requires
        current_types.wf(),
        covered.wf(),
        reconciliation_types.wf(),
    ensures
        r.wf(),
        r@ == current_types@.union(covered@.dom()).union(reconciliation_types@),
{
    let mut work = current_types.copy();
    let n: usize = covered.len();
    let mut i: usize = 0;
    proof {
        covered.lemma_domain();
        assert(work@ =~= current_types@.union(covered.order().take(0).to_set()));
    }
    while i < n
        invariant
            covered.wf(),
            work.wf(),
            i <= n == covered.order().len(),
            work@ == current_types@.union(covered.order().take(i as int).to_set()),
        decreases n - i,
    {
        let _ = work.insert(covered.key_at(i).clone());
        proof {
            lemma_to_set_step(covered.order(), i as int);
            assert(work@ =~= current_types@.union(covered.order().take(i + 1).to_set()));
        }
        i += 1;
    }
    proof {
        covered.lemma_domain();
        assert(covered.order().take(n as int) =~= covered.order());
    }
    work.extend(reconciliation_types);
    work
}

/// A type that ever had vectors stays in the work set, whatever is declared now.
pub proof fn law_vector_types_are_never_forgotten(
    current: Set<Seq<char>>,
    covered: Map<Seq<char>, String>,
    reconciling: Set<Seq<char>>,
    t: Seq<char>,
)
    requires
        covered.dom().contains(t) || reconciling.contains(t),
    ensures
        current.union(covered.dom()).union(reconciling).contains(t),
{
}

/// Whether a type of the work set needs anything: it declares vectors, has a
/// watermark, or has an unfinished reconciliation.
pub fn vector_type_needs_work(
    declares_vectors: bool,
    entity_type: &String,
    covered: &SortedMap<String, String>,
    reconciliation_types: &SortedSet<String>,
) -> (r: bool)
    requires
        covered.wf(),
        reconciliation_types.wf(),
    ensures
        r == (declares_vectors || covered@.dom().contains(entity_type@)
            || reconciliation_types@.contains(entity_type@)),
{
    declares_vectors || covered.contains_key(entity_type) || reconciliation_types.contains(
        entity_type,
    )
}

/// Where a type's declaration comes from.
pub enum DeclarationSource {
    /// The tenant's registry has the type; its table's fingerprint, where it has
    /// one, and the digest of its source.
    Registered { revision: u64, fingerprint: Option<String>, source_digest: String },
    /// The tenant's registry does not have the type.
    Unregistered { revision: u64 },
    /// There is no registry for the tenant, but a table of the single-tenant kind.
    Legacy { fingerprint: Option<String> },
    /// Nothing declares the type.
    Unknown,
}

/// The declaration that a reconciliation runs under.
pub struct VectorDeclaration {
    pub has_table: bool,
    pub revision: u64,
    pub fingerprint: String,
}

/// The declaration that a reconciliation of a type runs under.
pub fn vector_declaration(source: DeclarationSource) -> (r: VectorDeclaration)
    ensures
        match source {
            DeclarationSource::Registered { revision, fingerprint, source_digest } => {
                &&& r.has_table
                &&& r.revision == revision
                &&& r.fingerprint@ == (match fingerprint {
                    Some(f) => f@,
                    None => source_digest@,
                })
            },
            DeclarationSource::Unregistered { revision } => {
                &&& !r.has_table
                &&& r.revision == revision
                &&& r.fingerprint@ == absent_declaration()
            },
            DeclarationSource::Legacy { fingerprint } => {
                &&& r.has_table
                &&& r.revision == 1
                &&& r.fingerprint@ == (match fingerprint {
                    Some(f) => f@,
                    None => absent_declaration(),
                })
            },
            DeclarationSource::Unknown => {
                &&& !r.has_table
                &&& r.revision == 1
                &&& r.fingerprint@ == absent_declaration()
            },
        },
        r.has_table <==> (source is Registered || source is Legacy),
        source is Legacy || source is Unknown ==> r.revision == 1,
        !r.has_table ==> r.fingerprint@ == absent_declaration(),
        source matches DeclarationSource::Registered { fingerprint: Some(f), .. } ==> r.fingerprint@
            == f@,
        source matches DeclarationSource::Legacy { fingerprint: Some(f) } ==> r.fingerprint@ == f@,
{
    match source {
        DeclarationSource::Registered { revision, fingerprint, source_digest } =>
            VectorDeclaration {
            has_table: true,
            revision,
            fingerprint: match fingerprint {
                Some(f) => f,
                None => source_digest,
            },
        },
        DeclarationSource::Unregistered { revision } => VectorDeclaration {
            has_table: false,
            revision,
            fingerprint: absent_fingerprint().to_owned(),
        },
        DeclarationSource::Legacy { fingerprint } => VectorDeclaration {
            has_table: true,
            revision: 1,
            fingerprint: match fingerprint {
                Some(f) => f,
                None => absent_fingerprint().to_owned(),
            },
        },
        DeclarationSource::Unknown => VectorDeclaration {
            has_table: false,
            revision: 1,
            fingerprint: absent_fingerprint().to_owned(),
        },
    }
}

/// A finished type and the vector set that its watermark covers.
pub struct CompletedType {
    pub entity_type: String,
    pub vector_set: String,
}

pub open spec fn is_complete(
    completed: Seq<CompletedType>,
    entity_type: Seq<char>,
    vector_set: Seq<char>,
) -> bool {
    exists|i: int|
        0 <= i < completed.len() && (#[trigger] completed[i]).entity_type@ == entity_type
            && completed[i].vector_set@ == vector_set
}

/// Whether the watermarks, read anew, still cover the type's current vectors.
pub fn already_complete(
    completed: &Vec<CompletedType>,
    entity_type: &str,
    vector_set: &str,
) -> (r: bool)
    ensures
        r == is_complete(completed@, entity_type@, vector_set@),
{
    let mut i: usize = 0;
    while i < completed.len()
        invariant
            i <= completed@.len(),
            forall|j: int|
                0 <= j < i ==> !((#[trigger] completed@[j]).entity_type@ == entity_type@
                    && completed@[j].vector_set@ == vector_set@),
        decreases completed@.len() - i,
    {
        if same_text(completed[i].entity_type.as_str(), entity_type) && same_text(
            completed[i].vector_set.as_str(),
            vector_set,
        ) {
            return true;
        }
        i += 1;
    }
    false
}

// ---------------------------------------------------------------------------
// One stream
// ---------------------------------------------------------------------------

/// What a reconciliation does with one stream.
#[derive(Clone, Copy, PartialEq, Eq, Structural, Debug)]
pub enum VectorStep {
    /// Replace its rows by those of its state, at this sequence number.
    Index { sequence_nr: u64 },
    /// Take its rows away, at this sequence number.
    Purge { sequence_nr: u64 },
    /// It could not be read.
    Fail,
}

/// What a reconciliation does with one stream of a declared type.
pub fn vector_entity_step(outcome: &EntityLoadOutcome) -> (r: VectorStep)
    ensures
        match outcome {
            EntityLoadOutcome::Fields { fence, .. } => r == (VectorStep::Index {
                sequence_nr: fence.sequence_nr,
            }),
            EntityLoadOutcome::Deleted { fence } => r == (VectorStep::Purge {
                sequence_nr: fence.sequence_nr,
            }),
            EntityLoadOutcome::Missing { fence } => r == (VectorStep::Purge {
                sequence_nr: fence.sequence_nr,
            }),
            EntityLoadOutcome::LoadFailed => r is Fail,
        },
{
    match outcome {
        EntityLoadOutcome::Fields { fence, .. } => VectorStep::Index {
            sequence_nr: fence.sequence_nr,
        },
        EntityLoadOutcome::Deleted { fence } => VectorStep::Purge { sequence_nr: fence.sequence_nr },
        EntityLoadOutcome::Missing { fence } => VectorStep::Purge { sequence_nr: fence.sequence_nr },
        EntityLoadOutcome::LoadFailed => VectorStep::Fail,
    }
}

/// What a reconciliation does with one stream of a type that nothing declares:
/// its rows go, at the last sequence number of the stream.
pub fn undeclared_entity_step(sequence_nr: Option<u64>) -> (r: VectorStep)
    ensures
        match sequence_nr {
            Some(n) => r == (VectorStep::Purge { sequence_nr: n }),
            None => r is Fail,
        },
{
    match sequence_nr {
        Some(n) => VectorStep::Purge { sequence_nr: n },
        None => VectorStep::Fail,
    }
}

/// What was read of one stream.
pub enum StreamReading {
    /// Its entity, where something declares its type.
    Entity(EntityLoadOutcome),
    /// Its last sequence number, where nothing does; `None` where it could not be
    /// read.
    Sequence(Option<u64>),
}

/// What is right for a stream, as it was read.
pub open spec fn step_for(reading: StreamReading) -> VectorStep {
    match reading {
        StreamReading::Entity(EntityLoadOutcome::Fields { fence, .. }) => VectorStep::Index {
            sequence_nr: fence.sequence_nr,
        },
        StreamReading::Entity(EntityLoadOutcome::Deleted { fence }) => VectorStep::Purge {
            sequence_nr: fence.sequence_nr,
        },
        StreamReading::Entity(EntityLoadOutcome::Missing { fence }) => VectorStep::Purge {
            sequence_nr: fence.sequence_nr,
        },
        StreamReading::Entity(EntityLoadOutcome::LoadFailed) => VectorStep::Fail,
        StreamReading::Sequence(Some(n)) => VectorStep::Purge { sequence_nr: n },
        StreamReading::Sequence(None) => VectorStep::Fail,
    }
}

/// How one stream ended: what was done, whether the store took it, and whether
/// its state has any vector.
#[derive(Clone, Copy)]
pub struct VectorEnd {
    pub step: VectorStep,
    pub stored: bool,
    pub has_rows: bool,
}

pub open spec fn ended_indexed(e: VectorEnd) -> bool {
    e.step is Index && e.stored && e.has_rows
}

pub open spec fn ended_empty(e: VectorEnd) -> bool {
    e.stored && (e.step is Purge || (e.step is Index && !e.has_rows))
}

pub open spec fn ended_failed(e: VectorEnd) -> bool {
    e.step is Fail || !e.stored
}

/// How many streams ended in a given way.
pub open spec fn streams(all: Seq<VectorEnd>, p: spec_fn(VectorEnd) -> bool) -> nat
    decreases all.len(),
{
    if all.len() == 0 {
        0
    } else {
        streams(all.drop_last(), p) + (if p(all.last()) {
            1nat
        } else {
            0nat
        })
    }
}

/// The counts of one type.
pub struct VectorBackfillCounts {
    pub total: usize,
    pub indexed: usize,
    pub empty: usize,
    pub failed: usize,
}

/// Counts the streams of one type: each is indexed, empty or failed.
pub fn count_vector_backfill(all: &Vec<VectorEnd>) -> (r: VectorBackfillCounts)
    ensures
        r.total == all@.len(),
        r.indexed == streams(all@, |e: VectorEnd| ended_indexed(e)),
        r.empty == streams(all@, |e: VectorEnd| ended_empty(e)),
        r.failed == streams(all@, |e: VectorEnd| ended_failed(e)),
        r.total == r.indexed + r.empty + r.failed,
{
    let mut indexed: usize = 0;
    let mut empty: usize = 0;
    let mut failed: usize = 0;
    let total: usize = all.len();
    let mut i: usize = 0;
    while i < all.len()
        invariant
            i <= all@.len() == total,
            indexed + empty + failed == i,
            indexed == streams(all@.take(i as int), |e: VectorEnd| ended_indexed(e)),
            empty == streams(all@.take(i as int), |e: VectorEnd| ended_empty(e)),
            failed == streams(all@.take(i as int), |e: VectorEnd| ended_failed(e)),
        decreases all@.len() - i,
    {
        assert(all@.take(i + 1).drop_last() =~= all@.take(i as int));
        let e: VectorEnd = all[i];
        match e.step {
            VectorStep::Fail => {
                failed += 1;
            },
            VectorStep::Purge { .. } => {
                if e.stored {
                    empty += 1;
                } else {
                    failed += 1;
                }
            },
            VectorStep::Index { .. } => {
                if !e.stored {
                    failed += 1;
                } else if e.has_rows {
                    indexed += 1;
                } else {
                    empty += 1;
                }
            },
        }
        i += 1;
    }
    assert(all@.take(all@.len() as int) =~= all@);
    VectorBackfillCounts { total, indexed, empty, failed }
}

impl VectorBackfillCounts {
    /// Whether the type may be watermarked: every stream converged.
    pub fn may_watermark(&self) -> (r: bool)
        ensures
            r == (self.failed == 0),
    {
        self.failed == 0
    }
}

// ---------------------------------------------------------------------------
// The types of a reconciliation
// ---------------------------------------------------------------------------

/// The types that a reconciliation goes through, in ascending order: none where
/// there is no journal, or where it could not say which types it has a watermark
/// or an unfinished reconciliation for. The tables of the single-tenant kind
/// count only for a tenant without a registry.
pub fn populate_vector_index_from_snapshots(
    has_journal: bool,
    covered: Option<&SortedMap<String, String>>,
    reconciliation_types: Option<&SortedSet<String>>,
    registered_types: &SortedSet<String>,
    has_registry: bool,
    single_tenant_types: &SortedSet<String>,
) -> (r: SortedSet<String>)
    requires
        covered matches Some(c) ==> c.wf(),
        reconciliation_types matches Some(t) ==> t.wf(),
        registered_types.wf(),
        single_tenant_types.wf(),
    ensures
        r.wf(),
        r@ == if has_journal && covered is Some && reconciliation_types is Some {
            (if has_registry {
                registered_types@
            } else {
                registered_types@.union(single_tenant_types@)
            }).union(covered->0@.dom()).union(reconciliation_types->0@)
        } else {
            Set::<Seq<char>>::empty()
        },
{
    if !has_journal {
        return SortedSet::new();
    }
    match (covered, reconciliation_types) {
        (Some(covered), Some(reconciling)) => {
            let mut current = registered_types.copy();
            if !has_registry {
                current.extend(single_tenant_types);
            }
            vector_backfill_work_types(&current, covered, reconciling)
        },
        _ => SortedSet::new(),
    }
}

// ---------------------------------------------------------------------------
// The reconciliation of one type
// ---------------------------------------------------------------------------

/// How the reconciliation of a type ended.
#[derive(Clone, Copy, PartialEq, Eq, Structural, Debug)]
pub enum VectorStop {
    /// The store did not begin it.
    NotBegun,
    /// The watermarks could not be read again once it had begun.
    Unconfirmed,
    /// The watermarks cover the type already.
    AlreadyComplete,
    /// The streams of the type could not be listed.
    NotListed,
    /// Some stream failed: the type gets no watermark.
    Incomplete,
    /// Every stream converged, but the watermark was not written.
    NotMarked,
    /// Every stream converged, and the watermark is written.
    Complete,
}

/// What the reconciliation of a type does next.
#[derive(Clone, Copy, PartialEq, Eq, Structural, Debug)]
pub enum VectorPhase {
    /// Have the store begin it, under the type's declaration.
    Begin,
    /// Read the watermarks again: they may have been withdrawn meanwhile.
    Confirm,
    /// List the streams of the type.
    List,
    /// Read the next stream.
    Stream,
    /// Have the store take this for the next stream.
    Store(VectorStep),
    /// Write the watermark.
    Mark,
    /// Nothing.
    Over(VectorStop),
}

/// The reconciliation of one type under way.
pub struct VectorRun {
    pub entity_type: String,
    /// The signature of the vectors that the type declares.
    pub vector_set: String,
    pub phase: VectorPhase,
    /// What the store counts this reconciliation as.
    pub generation: u64,
    pub streams: Vec<String>,
    /// How the streams ended, in their order.
    pub ends: Vec<VectorEnd>,
    /// The streams that were read, in their order.
    pub read: Ghost<Seq<ReadStream>>,
}

/// A stream that was read.
pub struct ReadStream {
    pub id: Seq<char>,
    pub reading: StreamReading,
}

/// Some stream failed.
pub open spec fn any_failed(ends: Seq<VectorEnd>) -> bool {
    exists|i: int| 0 <= i < ends.len() && ended_failed(#[trigger] ends[i])
}

impl VectorRun {
    /// Streams are gone through one by one, and a watermark follows only where
    /// each of them converged.
    pub open spec fn wf(&self) -> bool {
        &&& self.read@.len() == self.ends@.len() + if self.phase is Store {
            1nat
        } else {
            0nat
        }
        &&& self.read@.len() <= self.streams@.len()
        &&& forall|i: int|
            0 <= i < self.read@.len() ==> (#[trigger] self.read@[i]).id == self.streams@[i]@
        &&& forall|i: int|
            0 <= i < self.ends@.len() ==> (#[trigger] self.ends@[i]).step == step_for(
                self.read@[i].reading,
            )
        &&& match self.phase {
            VectorPhase::Stream => self.ends@.len() < self.streams@.len(),
            VectorPhase::Store(step) => !(step is Fail) && step == step_for(
                self.read@.last().reading,
            ),
            VectorPhase::Mark => self.ends@.len() == self.streams@.len() && !any_failed(self.ends@),
            VectorPhase::Over(VectorStop::NotMarked) => self.ends@.len() == self.streams@.len()
                && !any_failed(self.ends@),
            VectorPhase::Over(VectorStop::Complete) => self.ends@.len() == self.streams@.len()
                && !any_failed(self.ends@),
            VectorPhase::Over(VectorStop::Incomplete) => self.ends@.len() == self.streams@.len()
                && any_failed(self.ends@),
            _ => self.streams@.len() == 0 && self.ends@.len() == 0,
        }
    }

    /// The reconciliation in another phase.
    pub open spec fn in_phase(self, phase: VectorPhase) -> VectorRun {
        VectorRun { phase, ..self }
    }

    /// The reconciliation once the next stream ended: at the stream after it, or
    /// past the last one.
    pub open spec fn is_after(self, before: VectorRun, read: ReadStream, end: VectorEnd) -> bool {
        &&& self.ends@ == before.ends@.push(end)
        &&& self.read@ == before.read@.take(before.ends@.len() as int).push(read)
        &&& self == (VectorRun { ends: self.ends, read: self.read, ..before }).in_phase(
            if self.ends@.len() < before.streams@.len() {
                VectorPhase::Stream
            } else if any_failed(self.ends@) {
                VectorPhase::Over(VectorStop::Incomplete)
            } else {
                VectorPhase::Mark
            },
        )
    }

    /// Before anything is done for a type.
    pub fn new(entity_type: &str, vector_set: &str) -> (r: VectorRun)
        ensures
            r.wf(),
            r.entity_type@ == entity_type@,
            r.vector_set@ == vector_set@,
            r.phase == VectorPhase::Begin,
            r.generation == 0,
    {
        VectorRun {
            entity_type: entity_type.to_owned(),
            vector_set: vector_set.to_owned(),
            phase: VectorPhase::Begin,
            generation: 0,
            streams: Vec::new(),
            ends: Vec::new(),
            read: Ghost(Seq::empty()),
        }
    }

    /// The store began the reconciliation and counts it as this, or it did not.
    pub fn on_begin(&mut self, generation: Option<u64>)
        requires
            old(self).wf(),
            old(self).phase == VectorPhase::Begin,
        ensures
            final(self).wf(),
            *final(self) == (match generation {
                Some(generation) => (VectorRun { generation, ..*old(self) }).in_phase(
                    VectorPhase::Confirm,
                ),
                None => old(self).in_phase(VectorPhase::Over(VectorStop::NotBegun)),
            }),
    {
        match generation {
            Some(generation) => {
                self.generation = generation;
                self.phase = VectorPhase::Confirm;
            },
            None => {
                self.phase = VectorPhase::Over(VectorStop::NotBegun);
            },
        }
    }

    /// The watermarks were read again, or they could not be.
    pub fn on_watermarks(&mut self, completed: Option<&Vec<CompletedType>>)
        requires
            old(self).wf(),
            old(self).phase == VectorPhase::Confirm,
        ensures
            final(self).wf(),
            *final(self) == old(self).in_phase(
                match completed {
                    Some(all) => if is_complete(
                        all@,
                        old(self).entity_type@,
                        old(self).vector_set@,
                    ) {
                        VectorPhase::Over(VectorStop::AlreadyComplete)
                    } else {
                        VectorPhase::List
                    },
                    None => VectorPhase::Over(VectorStop::Unconfirmed),
                },
            ),
    {
        match completed {
            Some(all) => {
                if already_complete(all, self.entity_type.as_str(), self.vector_set.as_str()) {
                    self.phase = VectorPhase::Over(VectorStop::AlreadyComplete);
                } else {
                    self.phase = VectorPhase::List;
                }
            },
            None => {
                self.phase = VectorPhase::Over(VectorStop::Unconfirmed);
            },
        }
    }

    /// The streams were listed, or they could not be. A type without streams is
    /// watermarked at once.
    pub fn on_listing(&mut self, streams: Option<Vec<String>>)
        requires
            old(self).wf(),
            old(self).phase == VectorPhase::List,
        ensures
            final(self).wf(),
            *final(self) == (match streams {
                Some(streams) => (VectorRun { streams, ..*old(self) }).in_phase(
                    if streams@.len() == 0 {
                        VectorPhase::Mark
                    } else {
                        VectorPhase::Stream
                    },
                ),
                None => old(self).in_phase(VectorPhase::Over(VectorStop::NotListed)),
            }),
    {
        match streams {
            Some(streams) => {
                self.phase = if streams.len() == 0 {
                    VectorPhase::Mark
                } else {
                    VectorPhase::Stream
                };
                self.streams = streams;
            },
            None => {
                self.phase = VectorPhase::Over(VectorStop::NotListed);
            },
        }
    }

    /// The stream that is to be read, or that the store is to take: the first
    /// listed one that has not ended.
    pub fn next(&self) -> (r: &String)
        requires
            self.wf(),
            self.phase is Stream || self.phase is Store,
        ensures
            *r == self.streams@[self.ends@.len() as int],
    {
        &self.streams[self.ends.len()]
    }

    fn settle(&mut self, end: VectorEnd)
        requires
            old(self).read@.len() == old(self).ends@.len() + 1,
            old(self).read@.len() <= old(self).streams@.len(),
            end.step == step_for(old(self).read@.last().reading),
            forall|i: int|
                0 <= i < old(self).read@.len() ==> (#[trigger] old(self).read@[i]).id
                    == old(self).streams@[i]@,
            forall|i: int|
                0 <= i < old(self).ends@.len() ==> (#[trigger] old(self).ends@[i]).step == step_for(
                    old(self).read@[i].reading,
                ),
        ensures
            final(self).wf(),
            final(self).is_after(*old(self), old(self).read@.last(), end),
    {
        self.ends.push(end);
        assert(old(self).read@.take(old(self).ends@.len() as int).push(old(self).read@.last())
            =~= old(self).read@);
        if self.ends.len() < self.streams.len() {
            self.phase = VectorPhase::Stream;
            return;
        }
        let counts = count_vector_backfill(&self.ends);
        proof {
            lemma_failed_are_counted(self.ends@);
        }
        self.phase = if counts.may_watermark() {
            VectorPhase::Mark
        } else {
            VectorPhase::Over(VectorStop::Incomplete)
        };
    }

    /// The next stream was read like this. One that could not be read has failed;
    /// for any other the store takes what is right for it.
    pub fn on_read(&mut self, reading: &StreamReading)
        requires
            old(self).wf(),
            old(self).phase == VectorPhase::Stream,
        ensures
            final(self).wf(),
            ({
                let read = ReadStream {
                    id: old(self).streams@[old(self).ends@.len() as int]@,
                    reading: *reading,
                };
                if step_for(*reading) is Fail {
                    final(self).is_after(
                        *old(self),
                        read,
                        VectorEnd { step: VectorStep::Fail, stored: false, has_rows: false },
                    )
                } else {
                    &&& final(self).read@ == old(self).read@.push(read)
                    &&& *final(self) == (VectorRun {
                        read: final(self).read,
                        ..*old(self)
                    }).in_phase(VectorPhase::Store(step_for(*reading)))
                }
            }),
    {
        let step: VectorStep = match reading {
            StreamReading::Entity(outcome) => vector_entity_step(outcome),
            StreamReading::Sequence(sequence_nr) => undeclared_entity_step(*sequence_nr),
        };
        let ghost before = *old(self);
        proof {
            let read = ReadStream {
                id: self.streams@[self.ends@.len() as int]@,
                reading: *reading,
            };
            assert(before.read@.take(before.ends@.len() as int) =~= before.read@);
            assert(before.read@.push(read).take(before.ends@.len() as int) =~= before.read@);
            self.read@ = self.read@.push(read);
        }
        match step {
            VectorStep::Fail => {
                self.settle(VectorEnd { step, stored: false, has_rows: false });
            },
            _ => {
                self.phase = VectorPhase::Store(step);
            },
        }
    }

    /// The store took what was right for the next stream, or it did not; and the
    /// stream has vectors, or it has none.
    pub fn on_stored(&mut self, stored: bool, has_rows: bool)
        requires
            old(self).wf(),
            old(self).phase is Store,
        ensures
            final(self).wf(),
            final(self).is_after(
                *old(self),
                old(self).read@.last(),
                VectorEnd { step: old(self).phase->Store_0, stored, has_rows },
            ),
    {
        match self.phase {
            VectorPhase::Store(step) => {
                self.settle(VectorEnd { step, stored, has_rows });
            },
            _ => {},
        }
    }

    /// The watermark was written, or it was not.
    pub fn on_mark(&mut self, marked: bool)
        requires
            old(self).wf(),
            old(self).phase == VectorPhase::Mark,
        ensures
            final(self).wf(),
            *final(self) == old(self).in_phase(
                VectorPhase::Over(
                    if marked {
                        VectorStop::Complete
                    } else {
                        VectorStop::NotMarked
                    },
                ),
            ),
    {
        self.phase = VectorPhase::Over(
            if marked {
                VectorStop::Complete
            } else {
                VectorStop::NotMarked
            },
        );
    }
}

proof fn lemma_failed_are_counted(all: Seq<VectorEnd>)
    ensures
        (streams(all, |e: VectorEnd| ended_failed(e)) == 0) == !any_failed(all),
    decreases all.len(),
{
    if all.len() > 0 {
        let init = all.drop_last();
        lemma_failed_are_counted(init);
        if any_failed(init) {
            let i = choose|i: int| 0 <= i < init.len() && ended_failed(#[trigger] init[i]);
            assert(ended_failed(all[i]));
        }
        if ended_failed(all.last()) {
            assert(ended_failed(all[all.len() - 1]));
        }
        if any_failed(all) && !ended_failed(all.last()) {
            let i = choose|i: int| 0 <= i < all.len() && ended_failed(#[trigger] all[i]);
            assert(ended_failed(init[i]));
        }
    }
}

/// A watermark is due only once each stream that was listed has converged: it was
/// read, and the store took what is right for it as it was read.
pub proof fn law_watermarks_follow_every_stream(run: VectorRun, i: int)
    requires
        run.wf(),
        run.phase == VectorPhase::Mark || run.phase == VectorPhase::Over(VectorStop::Complete),
        0 <= i < run.streams@.len(),
    ensures
        i < run.ends@.len(),
        run.read@[i].id == run.streams@[i]@,
        run.ends@[i].step == step_for(run.read@[i].reading),
        !(run.ends@[i].step is Fail),
        run.ends@[i].stored,
{
    let end = run.ends@[i];
    assert(!ended_failed(end));
    let read = run.read@[i];
}

/// Only a living entity keeps vectors: whatever is deleted, missing or undeclared loses
/// its rows, at the sequence number that was read; and what could not be read keeps
/// them, and fails.
pub proof fn law_only_living_entities_keep_vectors(reading: StreamReading)
    ensures
        step_for(reading) is Index <==> (reading matches StreamReading::Entity(o) && o is Fields),
        step_for(reading) is Fail <==> (reading matches StreamReading::Entity(o) && o
            is LoadFailed) || (reading matches StreamReading::Sequence(n) && n is None),
        reading matches StreamReading::Entity(EntityLoadOutcome::Fields { fence, .. }) ==> step_for(
            reading,
        )->Index_sequence_nr == fence.sequence_nr,
        reading matches StreamReading::Entity(EntityLoadOutcome::Deleted { fence }) ==> step_for(
            reading,
        ) == (VectorStep::Purge { sequence_nr: fence.sequence_nr }),
        reading matches StreamReading::Entity(EntityLoadOutcome::Missing { fence }) ==> step_for(
            reading,
        ) == (VectorStep::Purge { sequence_nr: fence.sequence_nr }),
        reading matches StreamReading::Sequence(Some(n)) ==> step_for(reading)
            == (VectorStep::Purge { sequence_nr: n }),
{
}

/// A type is complete where some watermark is for that very type and for the vectors
/// that it declares now; watermarks of other types, or for other vectors, do not count.
pub proof fn law_only_the_own_watermark_completes_a_type(
    completed: Seq<CompletedType>,
    entity_type: Seq<char>,
    vector_set: Seq<char>,
    i: int,
)
    requires
        0 <= i < completed.len(),
    ensures
        completed[i].entity_type@ == entity_type && completed[i].vector_set@ == vector_set
            ==> is_complete(completed, entity_type, vector_set),
        (forall|j: int|
            0 <= j < completed.len() ==> (#[trigger] completed[j]).entity_type@ != entity_type)
            ==> !is_complete(completed, entity_type, vector_set),
        (forall|j: int|
            0 <= j < completed.len() ==> (#[trigger] completed[j]).vector_set@ != vector_set)
            ==> !is_complete(completed, entity_type, vector_set),
{
}

proof fn lemma_streams_is_a_number_of_places(
    all: Seq<VectorEnd>,
    p: spec_fn(VectorEnd) -> bool,
    q: spec_fn(VectorEnd) -> bool,
)
    requires
        forall|e: VectorEnd| #[trigger] p(e) == q(e),
    ensures
        streams(all, p) == all.filter(q).len(),
    decreases all.len(),
{
    reveal(Seq::filter);
    if all.len() > 0 {
        lemma_streams_is_a_number_of_places(all.drop_last(), p, q);
        assert(p(all.last()) == q(all.last()));
    }
}

/// A stream counts as indexed where rows of its state were stored, as empty where the
/// store took it without any row, and as failed where it was not read or not taken.
pub proof fn law_vector_counts_are_those_of_the_streams(all: Seq<VectorEnd>)
    ensures
        streams(all, |e: VectorEnd| ended_indexed(e)) == all.filter(
            |e: VectorEnd| e.stored && e.has_rows && e.step is Index,
        ).len(),
        streams(all, |e: VectorEnd| ended_empty(e)) == all.filter(
            |e: VectorEnd| e.stored && (e.step is Purge || (e.step is Index && !e.has_rows)),
        ).len(),
        streams(all, |e: VectorEnd| ended_failed(e)) == all.filter(
            |e: VectorEnd| !e.stored || e.step is Fail,
        ).len(),
{
    lemma_streams_is_a_number_of_places(
        all,
        |e: VectorEnd| ended_indexed(e),
        |e: VectorEnd| e.stored && e.has_rows && e.step is Index,
    );
    lemma_streams_is_a_number_of_places(
        all,
        |e: VectorEnd| ended_empty(e),
        |e: VectorEnd| e.stored && (e.step is Purge || (e.step is Index && !e.has_rows)),
    );
    lemma_streams_is_a_number_of_places(
        all,
        |e: VectorEnd| ended_failed(e),
        |e: VectorEnd| !e.stored || e.step is Fail,
    );
}

} // verus!
