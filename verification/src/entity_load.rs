//! Which durable source an index backfill takes an entity's state from.

use vstd::prelude::*;
use vstd::string::*;

use crate::json::JsonValue;
use crate::text::same_text;

verus! {

/// The state that a recovery brought.
pub struct RecoveredState {
    pub status: String,
    pub total_event_count: u64,
    pub fields: JsonValue,
}

/// A stable reading of an entity's snapshot and journal.
pub struct StableEntitySource {
    pub durable_sequence: u64,
    pub journal_sequence: u64,
    /// The sequence number of the snapshot, where there is one.
    pub snapshot: Option<u64>,
    /// The journal itself holds a materialized state.
    pub replayed_state_materialization: bool,
    pub state: Option<RecoveredState>,
}

/// The durable generation that a reading was taken at.
#[derive(Clone, Copy)]
pub struct SourceFence {
    pub sequence_nr: u64,
    pub journal_sequence: u64,
    pub snapshot: Option<u64>,
}

/// What one entity is for an index backfill.
pub enum EntityLoadOutcome {
    /// Loaded: index it from these fields, fenced at this generation.
    Fields { fields: JsonValue, status: String, fence: SourceFence },
    /// Durably deleted.
    Deleted { fence: SourceFence },
    /// Nothing to replay and no snapshot: a name without an entity.
    Missing { fence: SourceFence },
    /// The entity exists and could not be loaded, so its type stays unfinished.
    LoadFailed,
}

pub open spec fn fence_of(source: StableEntitySource) -> SourceFence {
    SourceFence {
        sequence_nr: source.durable_sequence,
        journal_sequence: source.journal_sequence,
        snapshot: source.snapshot,
    }
}

/// A state that no event, no snapshot and no materialization stands behind.
pub open spec fn is_phantom(source: StableEntitySource) -> bool {
    source.state is Some && source.state->0.total_event_count == 0 && source.snapshot is None
        && !source.replayed_state_materialization
}

/// The status of an entity that was deleted.
pub open spec fn deleted_status() -> Seq<char> {
    "Deleted"@
}

/// Whether an entity of this status was deleted.
pub fn is_deleted(status: &str) -> (r: bool)
    ensures
        r == (status@ == deleted_status()),
        r == (status@ == "Deleted"@),
{
    same_text(status, "Deleted")
}

/// Classifies an entity by its stable reading; `None` where there is no table to
/// replay with or the reading failed.
pub fn load_entity_current_fields(source: Option<StableEntitySource>) -> (r: EntityLoadOutcome)
    ensures
        match source {
            None => r is LoadFailed,
            Some(s) => match s.state {
                None => r == EntityLoadOutcome::Missing { fence: fence_of(s) },
                Some(state) => if state.status@ == deleted_status() {
                    r == EntityLoadOutcome::Deleted { fence: fence_of(s) }
                } else if is_phantom(s) {
                    r == EntityLoadOutcome::Missing { fence: fence_of(s) }
                } else {
                    r == EntityLoadOutcome::Fields {
                        fields: state.fields,
                        status: state.status,
                        fence: fence_of(s),
                    }
                },
            },
        },
        r is LoadFailed <==> source is None,
        r is Deleted <==> (source matches Some(s) && s.state is Some && s.state->0.status@
            == "Deleted"@),
        r matches EntityLoadOutcome::Fields { fields, status, fence } ==> {
            &&& source is Some && source->0.state is Some
            &&& fields == source->0.state->0.fields
            &&& status == source->0.state->0.status
            &&& fence.sequence_nr == source->0.durable_sequence
        },
        source matches Some(s) ==> s.state is Some && (s.state->0.total_event_count > 0
            || s.snapshot is Some || s.replayed_state_materialization) ==> r !is Missing,
{
    let source = match source {
        Some(s) => s,
        None => {
            return EntityLoadOutcome::LoadFailed;
        },
    };
    let fence = SourceFence {
        sequence_nr: source.durable_sequence,
        journal_sequence: source.journal_sequence,
        snapshot: source.snapshot,
    };
    match source.state {
        None => EntityLoadOutcome::Missing { fence },
        Some(state) => {
            if is_deleted(state.status.as_str()) {
                EntityLoadOutcome::Deleted { fence }
            } else if state.total_event_count == 0 && source.snapshot.is_none()
                && !source.replayed_state_materialization {
                EntityLoadOutcome::Missing { fence }
            } else {
                EntityLoadOutcome::Fields { fields: state.fields, status: state.status, fence }
            }
        },
    }
}

/// The last sequence number of a stream: that of its last event, or else that
/// of its snapshot, or else none.
pub fn durable_stream_sequence(snapshot: Option<u64>, last_event: Option<u64>) -> (r: u64)
    ensures
        r == (match last_event {
            Some(e) => e,
            None => match snapshot {
                Some(s) => s,
                None => 0,
            },
        }),
{
    match last_event {
        Some(e) => e,
        None => match snapshot {
            Some(s) => s,
            None => 0,
        },
    }
}

/// Whatever left a trace is an entity: events, a snapshot, or a state that the journal
/// itself holds. A state without any of them is only a name.
pub proof fn law_entities_with_a_trace_are_no_phantoms(source: StableEntitySource)
    ensures
        source.snapshot is Some ==> !is_phantom(source),
        source.replayed_state_materialization ==> !is_phantom(source),
        source.state matches Some(s) ==> s.total_event_count > 0 ==> !is_phantom(source),
        source.state is None ==> !is_phantom(source),
        source.snapshot is None && !source.replayed_state_materialization ==> (
        source.state matches Some(s) ==> s.total_event_count == 0 ==> is_phantom(source)),
{
}

/// A fence is the generation that was read: its last sequence number, that of its
/// journal, and its snapshot.
pub proof fn law_fences_are_what_was_read(a: StableEntitySource, b: StableEntitySource)
    ensures
        fence_of(a) == fence_of(b) <==> a.durable_sequence == b.durable_sequence
            && a.journal_sequence == b.journal_sequence && a.snapshot == b.snapshot,
        fence_of(a).sequence_nr == a.durable_sequence,
        fence_of(a).journal_sequence == a.journal_sequence,
{
}

} // verus!
