//! Writing a file and its first content in one step.
//!
//! The file's events are made up before any actor exists, written together, and
//! only then does an actor take over.

use vstd::prelude::*;
use vstd::string::*;

use crate::directory::ActorDirectory;
use crate::directory::DirectoryModel;
use crate::entity_index::with_id;
use crate::entity_state::copy_event;
use crate::entity_state::has_initial_fields;
use crate::entity_state::same_event;
use crate::entity_state::EntityEvent;
use crate::entity_state::EntityState;
use crate::json::copy_json;
use crate::json::json_wf;
use crate::json::members_map;
use crate::json::members_wf;
use crate::json::names;
use crate::json::put_member;
use crate::json::same_json;
use crate::json::values_wf;
use crate::json::JsonMember;
use crate::json::JsonValue;
use crate::keys::index_key;
use crate::keys::index_key_of;
use crate::observe_events::newest;
use crate::sorted::lemma_ascending_unique;
use crate::text::same_text;
use crate::timestamps::Timestamp;

verus! {

/// Why the content of a file could not be written.
#[derive(Debug)]
pub enum FileStreamContentError {
    /// The file's state does not allow it, or could not be brought about.
    State(String),
    /// The file's table rejected the action.
    ActionRejected(String),
}

impl FileStreamContentError {
    /// The error in words.
    pub open spec fn text(self) -> Seq<char> {
        match self {
            FileStreamContentError::State(text) => text@,
            FileStreamContentError::ActionRejected(text) => text@,
        }
    }

    /// The error in words.
    pub fn message(&self) -> (r: String)
        ensures
            r@ == self.text(),
    {
        match self {
            FileStreamContentError::State(text) => text.clone(),
            FileStreamContentError::ActionRejected(text) => text.clone(),
        }
    }
}

/// The state of a new file.
pub fn initial_file_state(file_id: &str, initial_state: &str, initial_fields: JsonValue) -> (r:
    EntityState)
    requires
        json_wf(initial_fields),
    ensures
        r.wf(),
        r.is_initial(),
        r.entity_type@ == "File"@,
        r.entity_id@ == file_id@,
        r.status@ == initial_state@,
        has_initial_fields(initial_fields, file_id@, initial_state@, r.fields),
{
    EntityState::initial("File", file_id, initial_state, initial_fields)
}

// ---------------------------------------------------------------------------
// Actions without an actor
// ---------------------------------------------------------------------------

/// The value with the members of another set in it. Only an object takes members,
/// and only from an object.
pub open spec fn carries(before: JsonValue, params: JsonValue, after: JsonValue) -> bool {
    match (before, params) {
        (JsonValue::Object(b), JsonValue::Object(p)) => after matches JsonValue::Object(a) && {
            &&& members_wf(a@)
            &&& members_map(a@).dom() == members_map(b@).dom().union(members_map(p@).dom())
            &&& forall|n: Seq<char>| #[trigger]
                members_map(p@).dom().contains(n) ==> same_json(
                    members_map(a@)[n],
                    members_map(p@)[n],
                )
            &&& forall|n: Seq<char>| #[trigger]
                members_map(b@).dom().contains(n) && !members_map(p@).dom().contains(n)
                    ==> members_map(a@)[n] == members_map(b@)[n]
        },
        _ => after == before,
    }
}

/// Sets the members of `params` in a value.
pub fn carry_params(value: JsonValue, params: &JsonValue) -> (r: JsonValue)
    requires
        json_wf(value),
        json_wf(*params),
    ensures
        json_wf(r),
        carries(value, *params, r),
{
    let given = match params {
        JsonValue::Object(p) => p,
        _ => {
            return value;
        },
    };
    match value {
        JsonValue::Object(members) => {
            let ghost b = members@;
            let ghost p = given@;
            let mut out: Vec<JsonMember> = members;
            let mut i: usize = 0;
            proof {
                assert(values_wf(b));
                assert(names(p).take(0) =~= Seq::<Seq<char>>::empty());
            }
            while i < given.len()
                invariant
                    i <= given@.len(),
                    p == given@,
                    members_wf(p),
                    values_wf(p),
                    members_wf(b),
                    members_wf(out@),
                    values_wf(out@),
                    forall|n: Seq<char>| #[trigger]
                        members_map(out@).dom().contains(n) <==> (members_map(b).dom().contains(n)
                            || names(p).take(i as int).contains(n)),
                    forall|n: Seq<char>| #[trigger]
                        members_map(b).dom().contains(n) && !names(p).take(i as int).contains(n)
                            ==> members_map(out@)[n] == members_map(b)[n],
                    forall|j: int|
                        0 <= j < i ==> same_json(
                            members_map(out@)[(#[trigger] p[j]).name@],
                            p[j].value,
                        ),
                decreases given@.len() - i,
            {
                let ghost short = names(p).take(i as int);
                let ghost long = names(p).take(i + 1);
                let ghost name = p[i as int].name@;
                proof {
                    assert(names(p)[i as int] == name);
                    assert(long =~= short.push(name));
                    assert forall|n: Seq<char>| #[trigger] long.contains(n) <==> short.contains(n)
                        || n == name by {
                        if short.contains(n) {
                            let j = choose|j: int| 0 <= j < short.len() && short[j] == n;
                            assert(long[j] == n);
                        }
                        assert(long[i as int] == name);
                    }
                }
                let ghost before = out@;
                let value = copy_json(&given[i].value);
                put_member(&mut out, given[i].name.as_str(), value);
                proof {
                    assert(members_map(out@) == members_map(before).insert(name, value));
                    assert forall|j: int| 0 <= j < i + 1 implies same_json(
                        members_map(out@)[(#[trigger] p[j]).name@],
                        p[j].value,
                    ) by {
                        assert(names(p)[j] == p[j].name@);
                        if j < i && p[j].name@ == name {
                            lemma_ascending_unique::<String>(names(p), i as int);
                            lemma_ascending_unique::<String>(names(p), j);
                        }
                    }
                }
                i += 1;
            }
            proof {
                assert(names(p).take(i as int) =~= names(p));
                assert(members_map(out@).dom() =~= members_map(b).dom().union(members_map(p).dom()));
                assert forall|n: Seq<char>| #[trigger]
                    members_map(p).dom().contains(n) implies same_json(
                    members_map(out@)[n],
                    members_map(p)[n],
                ) by {
                    let j = names(p).index_of(n);
                    assert(names(p)[j] == n);
                    assert(p[j].name@ == n);
                }
            }
            JsonValue::Object(out)
        },
        other => other,
    }
}

/// What the file's table made of an action.
pub struct ProcessedAction {
    pub success: bool,
    pub error: Option<String>,
    pub event: Option<EntityEvent>,
    /// How many fields were too large for the state.
    pub overflow_blobs: usize,
}

/// The action whose parameters the server makes itself.
pub open spec fn is_server_made(action: Seq<char>) -> bool {
    action == "StreamUpdated"@
}

/// The error of a processed action, where it has one.
pub open spec fn action_error(action: Seq<char>, processed: ProcessedAction) -> Option<Seq<char>> {
    if processed.overflow_blobs > 0 {
        Some(
            "File."@ + action
                + " produced field-overflow blobs on the atomic initial content path"@,
        )
    } else if !processed.success {
        Some(
            match processed.error {
                Some(error) => error@,
                None => "File."@ + action + " rejected"@,
            },
        )
    } else if processed.event is None {
        Some("File."@ + action + " succeeded without producing a durable event"@)
    } else {
        None
    }
}

/// Takes in what the file's table made of an action, and gives the event to
/// write.
///
/// The parameters of a new version are the server's own, so all of them reach
/// the fields and the event, even where the tenant's table does not declare
/// them: otherwise the version and its lineage would be lost. What a caller
/// sends is never added in this way.
pub fn apply_synthetic_file_action(
    state: &mut EntityState,
    action: &str,
    params: &JsonValue,
    processed: ProcessedAction,
) -> (r: Result<EntityEvent, FileStreamContentError>)
    requires
        old(state).wf(),
        json_wf(*params),
        processed.event matches Some(event) ==> json_wf(event.params),
    ensures
        final(state).wf(),
        r is Err == action_error(action@, processed) is Some,
        r matches Err(e) ==> Some(e.text()) == action_error(action@, processed)
            && (e is ActionRejected) == (processed.overflow_blobs == 0 && !processed.success)
            && *final(state) == *old(state),
        r matches Ok(event) ==> {
            let made = processed.event->0;
            &&& *final(state) == (EntityState { fields: final(state).fields, ..*old(state) })
            &&& event == (EntityEvent { params: event.params, ..made })
            &&& json_wf(event.params)
            &&& if is_server_made(action@) {
                carries(old(state).fields, *params, final(state).fields) && carries(
                    made.params,
                    *params,
                    event.params,
                )
            } else {
                final(state).fields == old(state).fields && event.params == made.params
            }
        },
{
    if processed.overflow_blobs > 0 {
        let mut e = "File.".to_owned();
        e.append(action);
        e.append(" produced field-overflow blobs on the atomic initial content path");
        return Err(FileStreamContentError::State(e));
    }
    if !processed.success {
        return match processed.error {
            Some(error) => Err(FileStreamContentError::ActionRejected(error)),
            None => {
                let mut e = "File.".to_owned();
                e.append(action);
                e.append(" rejected");
                Err(FileStreamContentError::ActionRejected(e))
            },
        };
    }
    let made = match processed.event {
        Some(event) => event,
        None => {
            let mut e = "File.".to_owned();
            e.append(action);
            e.append(" succeeded without producing a durable event");
            return Err(FileStreamContentError::State(e));
        },
    };
    if !same_text(action, "StreamUpdated") {
        return Ok(made);
    }
    let mut fields = JsonValue::Null;
    std::mem::swap(&mut fields, &mut state.fields);
    state.fields = carry_params(fields, params);
    Ok(
        EntityEvent {
            action: made.action,
            from_status: made.from_status,
            to_status: made.to_status,
            timestamp: made.timestamp,
            params: carry_params(made.params, params),
            idempotency_key: made.idempotency_key,
        },
    )
}

/// Every parameter that the server makes reaches the fields and the event with its
/// value, and nothing else of them changes.
pub proof fn law_server_made_params_survive(
    before: JsonValue,
    params: JsonValue,
    after: JsonValue,
    name: Seq<char>,
)
    requires
        carries(before, params, after),
        before is Object,
        params is Object,
    ensures
        after is Object,
        ({
            let b = members_map(before->Object_0@);
            let p = members_map(params->Object_0@);
            let a = members_map(after->Object_0@);
            &&& a.dom().contains(name) == (b.dom().contains(name) || p.dom().contains(name))
            &&& p.dom().contains(name) ==> same_json(a[name], p[name])
            &&& b.dom().contains(name) && !p.dom().contains(name) ==> a[name] == b[name]
        }),
{
}

/// Takes an event into the state and into the events to write.
pub fn push_synthetic_event(
    state: &mut EntityState,
    events: &mut Vec<EntityEvent>,
    event: EntityEvent,
    window: usize,
)
    requires
        old(state).events@.len() < usize::MAX,
    ensures
        final(events)@ == old(events)@.push(event),
        final(state).sequence_nr == if old(state).sequence_nr < u64::MAX {
            old(state).sequence_nr + 1
        } else {
            u64::MAX as int
        },
        *final(state) == (EntityState {
            sequence_nr: final(state).sequence_nr,
            ..*old(state)
        }).counted(final(state).events),
        exists|copy: EntityEvent| #[trigger]
            same_event(copy, event) && final(state).events@ == newest(
                old(state).events@.push(copy),
                window as nat,
            ),
{
    state.sequence_nr = state.sequence_nr.saturating_add(1);
    let copy = copy_event(&event);
    state.push_recent_event(copy, window);
    events.push(event);
}

/// What stands around an event in the journal, apart from its payload.
pub struct EnvelopeHeader {
    pub sequence_nr: u64,
    pub event_type: String,
    pub event_id: u128,
    pub causation_id: u128,
    pub correlation_id: u128,
    pub timestamp: Timestamp,
    pub actor_id: String,
}

/// The envelope of an event, with fresh ids.
pub fn synthetic_envelope(
    persistence_id: &str,
    sequence_nr: u64,
    event: &EntityEvent,
    ids: (u128, u128, u128),
) -> (r: EnvelopeHeader)
    ensures
        r.sequence_nr == sequence_nr,
        r.event_type@ == event.action@,
        r.event_id == ids.0,
        r.causation_id == ids.1,
        r.correlation_id == ids.2,
        r.timestamp == event.timestamp,
        r.actor_id@ == persistence_id@,
{
    EnvelopeHeader {
        sequence_nr,
        event_type: event.action.clone(),
        event_id: ids.0,
        causation_id: ids.1,
        correlation_id: ids.2,
        timestamp: event.timestamp,
        actor_id: persistence_id.to_owned(),
    }
}

// ---------------------------------------------------------------------------
// After the commit
// ---------------------------------------------------------------------------

/// How the actor took over after a commit.
#[derive(Clone, Copy, PartialEq, Eq, Structural, Debug)]
pub enum Takeover {
    /// The stale actor did not drain.
    NotDrained,
    /// The stale actor drained; whether its successor became ready.
    Drained { materialized: bool },
}

/// The timeout fence of the stale actor is to be released: nothing serves the
/// file any more.
pub open spec fn releases_fence(takeover: Takeover) -> bool {
    takeover == (Takeover::Drained { materialized: false })
}

/// The error of a commit's aftermath, where it has one: the first that occurred.
pub open spec fn aftermath_error(
    file_id: Seq<char>,
    takeover: Takeover,
    projection_failure: Option<Seq<char>>,
) -> Option<Seq<char>> {
    match takeover {
        Takeover::NotDrained => Some(
            "File('"@ + file_id
                + "') committed initial content but failed to drain its stale actor"@,
        ),
        Takeover::Drained { materialized: false } => Some(
            "File('"@ + file_id
                + "') committed initial content but failed to materialize its authoritative actor"@,
        ),
        Takeover::Drained { materialized: true } => match projection_failure {
            Some(e) => Some(
                "query projection write failed during atomic File initial content create: "@ + e,
            ),
            None => None,
        },
    }
}

/// Ends the aftermath of a commit: the file is listed whatever went wrong, for
/// its content is durable, and the first error is handed out. The second part
/// of the answer says whether the timeout fence is to be released.
pub fn reconcile_initial_file_commit(
    directory: &mut ActorDirectory,
    tenant: &str,
    file_id: &str,
    takeover: Takeover,
    projection_failure: Option<&str>,
) -> (r: (Result<(), FileStreamContentError>, bool))
    requires
        old(directory).wf(),
    ensures
        final(directory).wf(),
        final(directory)@ == (DirectoryModel {
            index: with_id(old(directory)@.index, index_key_of(tenant@, "File"@), file_id@),
            ..old(directory)@
        }),
        r.1 == releases_fence(takeover),
        ({
            let error = aftermath_error(
                file_id@,
                takeover,
                match projection_failure {
                    Some(e) => Some(e@),
                    None => None,
                },
            );
            &&& r.0 is Err == error is Some
            &&& r.0 matches Err(e) ==> e is State && error == Some(e.text())
        }),
{
    let (first_error, release): (Option<String>, bool) = match takeover {
        Takeover::NotDrained => {
            let mut e = "File('".to_owned();
            e.append(file_id);
            e.append("') committed initial content but failed to drain its stale actor");
            (Some(e), false)
        },
        Takeover::Drained { materialized } => {
            if materialized {
                (None, false)
            } else {
                let mut e = "File('".to_owned();
                e.append(file_id);
                e.append(
                    "') committed initial content but failed to materialize its authoritative actor",
                );
                (Some(e), true)
            }
        },
    };
    let error: Option<String> = match first_error {
        Some(e) => Some(e),
        None => match projection_failure {
            Some(failure) => {
                let mut e =
                    "query projection write failed during atomic File initial content create: ".to_owned();
                e.append(failure);
                Some(e)
            },
            None => None,
        },
    };
    let key = index_key(tenant, "File");
    directory.collection.index.insert(key.as_str(), file_id);
    match error {
        Some(e) => (Err(FileStreamContentError::State(e)), release),
        None => (Ok(()), release),
    }
}

/// Only the content of a new version has parameters that the server makes.
pub proof fn law_only_stream_updates_are_server_made(action: Seq<char>)
    ensures
        is_server_made(action) <==> action == "StreamUpdated"@,
{
}

/// An action is taken only where it succeeded, brought its event and left no blob aside.
/// Whatever else went wrong, a blob left aside is said first, and a rejection is said in
/// the words of the table where it has some.
pub proof fn law_actions_are_taken_only_in_full(action: Seq<char>, processed: ProcessedAction)
    ensures
        action_error(action, processed) is None <==> processed.success && processed.event is Some
            && processed.overflow_blobs == 0,
        processed.overflow_blobs == 0 && !processed.success && processed.error is Some
            ==> action_error(action, processed) == Some(processed.error->0@),
        processed.overflow_blobs == 0 && !processed.success && processed.error is None
            ==> action_error(action, processed) == Some("File."@ + action + " rejected"@),
        processed.overflow_blobs > 0 ==> action_error(action, processed) == action_error(
            action,
            (ProcessedAction { success: false, error: None, ..processed }),
        ),
{
}

/// After a commit all is well only where the actor was taken over and its projection
/// written. The timeout fence is released exactly where the stale actor is gone and no
/// successor is there.
pub proof fn law_commits_end_well_only_in_full(
    file_id: Seq<char>,
    takeover: Takeover,
    projection_failure: Option<Seq<char>>,
)
    ensures
        aftermath_error(file_id, takeover, projection_failure) is None <==> takeover == (
        Takeover::Drained { materialized: true }) && projection_failure is None,
        releases_fence(takeover) <==> !(takeover is NotDrained) && takeover
            != (Takeover::Drained { materialized: true }),
        takeover != (Takeover::Drained { materialized: true }) ==> aftermath_error(
            file_id,
            takeover,
            projection_failure,
        ) == aftermath_error(file_id, takeover, None),
{
}

} // verus!
