//! Events that observers follow.

use vstd::prelude::*;
use vstd::string::*;

use crate::json::JsonValue;

verus! {

/// What an agent is doing.
#[derive(Debug)]
pub struct AgentProgressEvent {
    pub tenant: String,
    pub entity_type: String,
    pub entity_id: String,
    /// The number of the event among those of its entity.
    pub seq: u64,
    /// `tool_call_started`, `tool_call_completed`, `task_started`,
    /// `task_completed` or `agent_completed`.
    pub kind: String,
    pub agent_id: String,
    pub tool_call_id: Option<String>,
    pub tool_name: Option<String>,
    pub task_id: Option<String>,
    pub message: Option<String>,
    pub timestamp: String,
    pub data: Option<JsonValue>,
}

/// One event of an entity, as it can be played back.
#[derive(Debug)]
pub struct EntityObserveEvent {
    pub tenant: String,
    pub entity_type: String,
    pub entity_id: String,
    /// The number of the event among those of its entity.
    pub seq: u64,
    pub event_name: String,
    pub data: JsonValue,
}

/// Says which data has changed and is worth reading again.
#[derive(Clone, Copy, PartialEq, Eq, Structural, Debug)]
pub enum ObserveRefreshHint {
    Specs,
    Entities,
    Verification,
    Trajectories,
    Agents,
    Policies,
    EvolutionRecords,
    EvolutionInsights,
    UnmetIntents,
    FeatureRequests,
    OsApps,
    Decisions,
}

/// What happens while specs are loaded and verified.
#[derive(Debug)]
pub struct DesignTimeEvent {
    /// `spec_loaded`, `verify_started`, `verify_level` or `verify_done`.
    pub kind: String,
    pub entity_type: String,
    pub tenant: String,
    pub summary: String,
    pub level: Option<String>,
    pub passed: Option<bool>,
    pub timestamp: String,
    pub step_number: Option<u8>,
    pub total_steps: Option<u8>,
}

/// The last `capacity` of the items.
pub open spec fn newest<T>(items: Seq<T>, capacity: nat) -> Seq<T> {
    if items.len() <= capacity {
        items
    } else {
        items.skip(items.len() - capacity)
    }
}

/// A log that keeps the newest items.
pub struct BoundedLog<T> {
    items: Vec<T>,
    capacity: usize,
}

impl<T> View for BoundedLog<T> {
    type V = Seq<T>;

    closed spec fn view(&self) -> Seq<T> {
        self.items@
    }
}

impl<T> BoundedLog<T> {
    pub closed spec fn limit(&self) -> nat {
        self.capacity as nat
    }

    pub open spec fn wf(&self) -> bool {
        self@.len() <= self.limit() && self.limit() > 0
    }

    /// An empty log.
    pub fn new(capacity: usize) -> (r: BoundedLog<T>)
        requires
            capacity > 0,
        ensures
            r.wf(),
            r.limit() == capacity,
            r@ == Seq::<T>::empty(),
    {
        BoundedLog { items: Vec::new(), capacity }
    }

    /// How many items the log holds.
    pub fn len(&self) -> (r: usize)
        ensures
            r == self@.len(),
    {
        self.items.len()
    }

    /// The item at a place, the oldest first.
    pub fn at(&self, i: usize) -> (r: &T)
        requires
            i < self@.len(),
        ensures
            *r == self@[i as int],
    {
        &self.items[i]
    }

    /// Appends an item; the oldest leaves a full log.
    pub fn push(&mut self, item: T)
        requires
            old(self).wf(),
        ensures
            final(self).wf(),
            final(self).limit() == old(self).limit(),
            final(self)@ == newest(old(self)@.push(item), old(self).limit()),
    {
        let ghost before = self@;
        if self.items.len() >= self.capacity {
            let _ = self.items.remove(0);
        }
        self.items.push(item);
        assert(self@ =~= newest(before.push(item), old(self).limit()));
    }
}

/// A log never outgrows its limit, and the newest item is always in it.
pub proof fn law_logs_keep_the_newest<T>(items: Seq<T>, item: T, capacity: nat)
    requires
        capacity > 0,
    ensures
        newest(items.push(item), capacity).len() <= capacity,
        newest(items.push(item), capacity).last() == item,
{
}

/// What a log keeps are its newest items in their order: the item at each place is the
/// one that stood as far from the end before, and nothing is dropped while there is room.
pub proof fn law_logs_keep_their_order<T>(items: Seq<T>, capacity: nat, i: int)
    requires
        0 <= i < newest(items, capacity).len(),
    ensures
        newest(items, capacity)[i] == items[items.len() - newest(items, capacity).len() + i],
        items.len() <= capacity ==> newest(items, capacity).len() == items.len(),
        items.len() > capacity ==> newest(items, capacity).len() == capacity,
{
}

} // verus!
