//! The state of an entity and the events that led to it.

use vstd::prelude::*;
use vstd::string::*;

use crate::json::copy_json;
use crate::json::insert_if_absent;
use crate::json::json_wf;
use crate::json::members_map;
use crate::json::members_wf;
use crate::json::names;
use crate::json::same_json;
use crate::json::values_wf;
use crate::json::JsonMember;
use crate::json::JsonValue;
use crate::observe_events::newest;
use crate::sorted::SortedMap;
use crate::timestamps::Timestamp;

verus! {

/// One event of an entity.
#[derive(Debug)]
pub struct EntityEvent {
    pub action: String,
    pub from_status: String,
    pub to_status: String,
    pub timestamp: Timestamp,
    pub params: JsonValue,
    pub idempotency_key: Option<String>,
}

/// The optional texts are the same.
pub open spec fn same_option(a: Option<String>, b: Option<String>) -> bool {
    match (a, b) {
        (Some(x), Some(y)) => x@ == y@,
        (None, None) => true,
        _ => false,
    }
}

/// The two events are the same throughout.
pub open spec fn same_event(a: EntityEvent, b: EntityEvent) -> bool {
    &&& a.action@ == b.action@
    &&& a.from_status@ == b.from_status@
    &&& a.to_status@ == b.to_status@
    &&& a.timestamp == b.timestamp
    &&& same_json(a.params, b.params)
    &&& same_option(a.idempotency_key, b.idempotency_key)
}

/// Copies an event.
pub fn copy_event(event: &EntityEvent) -> (r: EntityEvent)
    ensures
        same_event(r, *event),
        json_wf(event.params) ==> json_wf(r.params),
{
    EntityEvent {
        action: event.action.clone(),
        from_status: event.from_status.clone(),
        to_status: event.to_status.clone(),
        timestamp: event.timestamp,
        params: copy_json(&event.params),
        idempotency_key: match &event.idempotency_key {
            Some(key) => Some(key.clone()),
            None => None,
        },
    }
}

/// The state of an entity.
pub struct EntityState {
    pub entity_type: String,
    pub entity_id: String,
    pub status: String,
    pub item_count: usize,
    pub counters: SortedMap<String, usize>,
    pub booleans: SortedMap<String, bool>,
    pub lists: SortedMap<String, Vec<String>>,
    pub fields: JsonValue,
    /// The most recent events, the oldest first.
    pub events: Vec<EntityEvent>,
    pub total_event_count: usize,
    pub events_since_snapshot: usize,
    pub last_snapshot_sequence_nr: u64,
    pub sequence_nr: u64,
}

/// The fields of a new entity: those that were given, and its id and status
/// unless they were given too. Only an object takes them in.
pub open spec fn has_initial_fields(
    given: JsonValue,
    entity_id: Seq<char>,
    status: Seq<char>,
    fields: JsonValue,
) -> bool {
    match (given, fields) {
        (JsonValue::Object(before), JsonValue::Object(after)) => {
            &&& members_wf(after@)
            &&& members_map(after@).dom() == members_map(before@).dom().insert("Id"@).insert(
                "Status"@,
            )
            &&& forall|n: Seq<char>| #[trigger]
                members_map(before@).dom().contains(n) ==> members_map(after@)[n] == members_map(
                    before@,
                )[n]
            &&& !names(before@).contains("Id"@) ==> (members_map(
                after@,
            )["Id"@] matches JsonValue::Text(t) && t@ == entity_id)
            &&& !names(before@).contains("Status"@) ==> (members_map(
                after@,
            )["Status"@] matches JsonValue::Text(t) && t@ == status)
        },
        (JsonValue::Object(_), _) => false,
        _ => fields == given,
    }
}

/// Puts the id and the status into the fields of a new entity.
pub fn initial_fields(given: JsonValue, entity_id: &str, status: &str) -> (r: JsonValue)
    requires
        json_wf(given),
    ensures
        json_wf(r),
        has_initial_fields(given, entity_id@, status@, r),
{
    match given {
        JsonValue::Object(members) => {
            let ghost before = members@;
            let mut out: Vec<JsonMember> = members;
            assert(values_wf(before));
            proof {
                reveal_strlit("Id");
                reveal_strlit("Status");
                assert("Id"@.len() != "Status"@.len());
            }
            insert_if_absent(&mut out, "Id", JsonValue::Text(entity_id.to_owned()));
            let ghost middle = out@;
            proof {
                assert(members_map(middle).dom() =~= members_map(before).dom().insert("Id"@));
            }
            insert_if_absent(&mut out, "Status", JsonValue::Text(status.to_owned()));
            proof {
                assert(members_map(out@).dom() =~= members_map(middle).dom().insert("Status"@));
                assert(names(before).contains("Id"@) == members_map(before).dom().contains("Id"@));
                assert(names(before).contains("Status"@) == members_map(before).dom().contains(
                    "Status"@,
                ));
                assert(names(middle).contains("Status"@) == members_map(middle).dom().contains(
                    "Status"@,
                ));
            }
            JsonValue::Object(out)
        },
        other => other,
    }
}

impl EntityState {
    pub open spec fn wf(&self) -> bool {
        &&& self.counters.wf()
        &&& self.booleans.wf()
        &&& self.lists.wf()
        &&& json_wf(self.fields)
    }

    /// The state is that of an entity to which nothing has happened yet.
    pub open spec fn is_initial(&self) -> bool {
        &&& self.item_count == 0
        &&& self.counters@ == Map::<Seq<char>, usize>::empty()
        &&& self.booleans@ == Map::<Seq<char>, bool>::empty()
        &&& self.lists@ == Map::<Seq<char>, Vec<String>>::empty()
        &&& self.events@ == Seq::<EntityEvent>::empty()
        &&& self.total_event_count == 0
        &&& self.events_since_snapshot == 0
        &&& self.last_snapshot_sequence_nr == 0
        &&& self.sequence_nr == 0
    }

    /// The state of a new entity.
    pub fn initial(entity_type: &str, entity_id: &str, status: &str, given: JsonValue) -> (r:
        EntityState)
        requires
            json_wf(given),
        ensures
            r.wf(),
            r.is_initial(),
            r.events@.len() == 0 && r.total_event_count == 0 && r.events_since_snapshot == 0,
            r.sequence_nr == 0 && r.last_snapshot_sequence_nr == 0 && r.item_count == 0,
            r.counters@.dom() =~= Set::empty() && r.booleans@.dom() =~= Set::empty()
                && r.lists@.dom() =~= Set::empty(),
            r.entity_type@ == entity_type@,
            r.entity_id@ == entity_id@,
            r.status@ == status@,
            has_initial_fields(given, entity_id@, status@, r.fields),
    {
        EntityState {
            entity_type: entity_type.to_owned(),
            entity_id: entity_id.to_owned(),
            status: status.to_owned(),
            item_count: 0,
            counters: SortedMap::new(),
            booleans: SortedMap::new(),
            lists: SortedMap::new(),
            fields: initial_fields(given, entity_id, status),
            events: Vec::new(),
            total_event_count: 0,
            events_since_snapshot: 0,
            last_snapshot_sequence_nr: 0,
            sequence_nr: 0,
        }
    }

    /// The state with one more event counted and these recent events.
    pub open spec fn counted(self, events: Vec<EntityEvent>) -> EntityState {
        EntityState {
            events,
            total_event_count: one_more(self.total_event_count),
            events_since_snapshot: one_more(self.events_since_snapshot),
            ..self
        }
    }

    /// Counts an event and appends it to the recent ones, of which at most
    /// `window` are kept: the oldest leave first.
    pub fn push_recent_event(&mut self, event: EntityEvent, window: usize)
        requires
            old(self).events@.len() < usize::MAX,
        ensures
            *final(self) == old(self).counted(final(self).events),
            final(self).events@ == newest(old(self).events@.push(event), window as nat),
    {
        self.total_event_count = self.total_event_count.saturating_add(1);
        self.events_since_snapshot = self.events_since_snapshot.saturating_add(1);
        self.events.push(event);
        let ghost all = self.events@;
        assert(all.skip(0) =~= all);
        let mut dropped: usize = 0;
        while self.events.len() > window
            invariant
                dropped <= all.len(),
                self.events@ == all.skip(dropped as int),
                dropped > 0 ==> dropped <= all.len() - window,
                *self == old(self).counted(self.events),
                all.len() <= usize::MAX,
            decreases self.events@.len(),
        {
            let _ = self.events.remove(0);
            assert(self.events@ =~= all.skip(dropped + 1));
            dropped += 1;
        }
    }
}

/// One more than a count, which stops at the largest number.
pub open spec fn one_more(count: usize) -> usize {
    if count < usize::MAX {
        (count + 1) as usize
    } else {
        count
    }
}

/// The fields of a new entity name its id and its status where the caller did not, and
/// otherwise are what the caller gave: nothing is dropped, replaced or added.
pub proof fn law_new_entities_know_their_id_and_status(
    given: JsonValue,
    entity_id: Seq<char>,
    status: Seq<char>,
    fields: JsonValue,
    name: Seq<char>,
)
    requires
        has_initial_fields(given, entity_id, status, fields),
        given is Object,
    ensures
        fields is Object,
        ({
            let before = members_map(given->Object_0@);
            let after = members_map(fields->Object_0@);
            &&& before.dom().contains(name) ==> after.dom().contains(name) && after[name]
                == before[name]
            &&& after.dom().contains("Id"@)
            &&& after.dom().contains("Status"@)
            &&& !names(given->Object_0@).contains("Id"@) ==> after["Id"@] is Text
                && after["Id"@]->Text_0@ == entity_id
            &&& !names(given->Object_0@).contains("Status"@) ==> after["Status"@] is Text
                && after["Status"@]->Text_0@ == status
            &&& after.dom().contains(name) && name != "Id"@ && name != "Status"@
                ==> before.dom().contains(name)
        }),
{
}

/// Two events are the same only where everything of them is: what was done, from and to
/// which status, when, with what and under which key.
pub proof fn law_same_events_agree_throughout(a: EntityEvent, b: EntityEvent)
    requires
        same_event(a, b),
    ensures
        a.action@ == b.action@,
        a.from_status@ == b.from_status@,
        a.to_status@ == b.to_status@,
        a.timestamp.secs == b.timestamp.secs,
        a.timestamp.nanos == b.timestamp.nanos,
        same_json(a.params, b.params),
        a.idempotency_key is Some == b.idempotency_key is Some,
        a.idempotency_key matches Some(k) ==> b.idempotency_key->0@ == k@,
{
}

/// An event is counted once, in the total and since the snapshot, and nothing but the
/// counts and the recent events changes; a count stops at its largest number.
pub proof fn law_events_are_counted_once(state: EntityState, events: Vec<EntityEvent>)
    ensures
        ({
            let after = state.counted(events);
            &&& state.total_event_count < usize::MAX ==> after.total_event_count
                == state.total_event_count + 1
            &&& state.events_since_snapshot < usize::MAX ==> after.events_since_snapshot
                == state.events_since_snapshot + 1
            &&& state.total_event_count == usize::MAX ==> after.total_event_count == usize::MAX
            &&& state.events_since_snapshot == usize::MAX ==> after.events_since_snapshot
                == usize::MAX
            &&& after.events == events
            &&& after.entity_type == state.entity_type
            &&& after.entity_id == state.entity_id
            &&& after.status == state.status
            &&& after.fields == state.fields
            &&& after.sequence_nr == state.sequence_nr
            &&& after.last_snapshot_sequence_nr == state.last_snapshot_sequence_nr
            &&& after.item_count == state.item_count
        }),
{
}

} // verus!
