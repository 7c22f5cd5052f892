//! Evicting one incarnation of an actor without erasing its successor.

use vstd::prelude::*;
use vstd::string::*;

use crate::directory::is_current;
use crate::directory::ActorDirectory;
use crate::directory::DirectoryModel;
use crate::entity_index::law_other_entities_stay_listed;
use crate::entity_index::lists;
use crate::entity_index::without_id;
use crate::keys::actor_key;
use crate::keys::actor_key_of;
use crate::keys::index_key_of;

verus! {

/// How often an eviction starts over because another incarnation appeared.
pub const EVICTION_RETRY_BUDGET: usize = 3;

/// What an eviction does next.
#[derive(Clone, Copy, PartialEq, Eq, Structural, Debug)]
pub enum EvictionStep {
    /// Close the mailbox of this incarnation and let it finish.
    Drain(u128),
    /// Over; whether an incarnation was removed.
    Done(bool),
}

/// An eviction of whichever incarnation is registered, or of one only.
#[derive(Clone, Copy, PartialEq, Eq, Structural, Debug)]
pub struct Eviction {
    pub expected: Option<u128>,
    pub tries_left: usize,
}

/// The directory without an entity: no actor, no stamp, and no listing unless
/// it is kept.
pub open spec fn without_entity(
    d: DirectoryModel,
    tenant: Seq<char>,
    entity_type: Seq<char>,
    entity_id: Seq<char>,
    unlist: bool,
) -> DirectoryModel {
    let key = actor_key_of(tenant, entity_type, entity_id);
    DirectoryModel {
        registry: d.registry.remove(key),
        stamps: d.stamps.remove(key),
        index: if unlist {
            without_id(d.index, index_key_of(tenant, entity_type), entity_id)
        } else {
            d.index
        },
        hydrated: d.hydrated,
    }
}

/// The incarnation registered under a key, if any.
pub open spec fn registered_uid(d: DirectoryModel, key: Seq<char>) -> Option<u128> {
    if d.registry.dom().contains(key) {
        Some(d.registry[key])
    } else {
        None
    }
}

/// The first step of a try.
pub open spec fn eviction_step(at: Eviction, current: Option<u128>) -> EvictionStep {
    if at.tries_left == 0 {
        EvictionStep::Done(false)
    } else {
        match current {
            None => EvictionStep::Done(at.expected is None),
            Some(uid) => if at.expected is Some && at.expected != Some(uid) {
                EvictionStep::Done(false)
            } else {
                EvictionStep::Drain(uid)
            },
        }
    }
}

impl Eviction {
    /// An eviction that has not begun. With `expected`, only that incarnation
    /// may be removed.
    pub fn new(expected: Option<u128>) -> (r: Eviction)
        ensures
            r == (Eviction { expected, tries_left: EVICTION_RETRY_BUDGET }),
            r.tries_left == 3,
    {
        Eviction { expected, tries_left: EVICTION_RETRY_BUDGET }
    }

    /// Begins a try. An entity that nothing serves is removed on the spot,
    /// unless one incarnation was expected.
    pub fn begin(
        &mut self,
        directory: &mut ActorDirectory,
        tenant: &str,
        entity_type: &str,
        entity_id: &str,
    ) -> (r: EvictionStep)
        requires
            old(directory).wf(),
        ensures
            final(directory).wf(),
            ({
                let key = actor_key_of(tenant@, entity_type@, entity_id@);
                let current = registered_uid(old(directory)@, key);
                &&& r == eviction_step(*old(self), current)
                &&& final(directory)@ == if r == EvictionStep::Done(true) {
                    without_entity(old(directory)@, tenant@, entity_type@, entity_id@, true)
                } else {
                    old(directory)@
                }
                &&& *final(self) == (Eviction {
                    expected: old(self).expected,
                    tries_left: if r is Drain {
                        (old(self).tries_left - 1) as usize
                    } else {
                        old(self).tries_left
                    },
                })
            }),
    {
        if self.tries_left == 0 {
            return EvictionStep::Done(false);
        }
        let key = actor_key(tenant, entity_type, entity_id);
        let current: Option<u128> = match directory.registry.get(&key) {
            Some(uid) => Some(*uid),
            None => None,
        };
        match current {
            None => {
                if self.expected.is_some() {
                    return EvictionStep::Done(false);
                }
                let removed: bool = directory.remove_entity_actor_incarnation_if_current(
                    tenant,
                    entity_type,
                    entity_id,
                    None,
                    true,
                );
                EvictionStep::Done(removed)
            },
            Some(uid) => {
                if let Some(expected) = self.expected {
                    if expected != uid {
                        return EvictionStep::Done(false);
                    }
                }
                self.tries_left = self.tries_left - 1;
                EvictionStep::Drain(uid)
            },
        }
    }

    /// Takes in how the drain of `uid` ended. `Some` ends the eviction; `None`
    /// asks for another try, because a successor had taken the place.
    pub fn on_drain(
        &self,
        directory: &mut ActorDirectory,
        tenant: &str,
        entity_type: &str,
        entity_id: &str,
        uid: u128,
        drained: bool,
    ) -> (r: Option<bool>)
        requires
            old(directory).wf(),
        ensures
            final(directory).wf(),
            ({
                let key = actor_key_of(tenant@, entity_type@, entity_id@);
                let removed = drained && is_current(old(directory)@, key, uid);
                &&& final(directory)@ == if removed {
                    without_entity(old(directory)@, tenant@, entity_type@, entity_id@, true)
                } else {
                    old(directory)@
                }
                &&& r == (if !drained {
                    Some(false)
                } else if removed || self.expected is Some {
                    Some(removed)
                } else {
                    None
                })
            }),
    {
        if !drained {
            return Some(false);
        }
        let removed: bool = directory.remove_entity_actor_incarnation_if_current(
            tenant,
            entity_type,
            entity_id,
            Some(uid),
            true,
        );
        if removed || self.expected.is_some() {
            Some(removed)
        } else {
            None
        }
    }
}

/// A removed entity is served by nothing and listed nowhere.
pub proof fn law_evicted_entities_are_gone(
    d: DirectoryModel,
    tenant: Seq<char>,
    entity_type: Seq<char>,
    entity_id: Seq<char>,
)
    ensures
        ({
            let after = without_entity(d, tenant, entity_type, entity_id, true);
            let key = actor_key_of(tenant, entity_type, entity_id);
            &&& registered_uid(after, key) is None
            &&& !after.stamps.dom().contains(key)
            &&& !lists(after.index, index_key_of(tenant, entity_type), entity_id)
        }),
{
}

/// An eviction that expects one incarnation drains no other.
pub proof fn law_expected_evictions_spare_successors(
    at: Eviction,
    expected: u128,
    current: Option<u128>,
)
    requires
        at.expected == Some(expected),
        current != Some(expected),
    ensures
        eviction_step(at, current) == EvictionStep::Done(false),
{
}

// ---------------------------------------------------------------------------
// Removal without waiting
// ---------------------------------------------------------------------------

/// How the stop of an incarnation went.
#[derive(Clone, Copy, PartialEq, Eq, Structural, Debug)]
pub enum StopOutcome {
    /// The stop was not admitted.
    Refused,
    /// The actor has stopped.
    Stopped,
    /// The actor will stop; `can_wait` says whether something can wait for it.
    Stopping { can_wait: bool },
}

/// How a removal without waiting ended.
#[derive(Clone, Copy, PartialEq, Eq, Structural, Debug)]
pub enum RemovalEnd {
    /// The live incarnation stays registered.
    Kept,
    /// The incarnation was stopped; whether it still was the registered one.
    Removed(bool),
    /// An eviction of this incarnation finishes the removal in the background.
    Background,
}

/// Begins a removal: an entity that nothing serves is removed on the spot, and
/// otherwise the incarnation to stop is handed out.
pub fn claim_removal(
    directory: &mut ActorDirectory,
    tenant: &str,
    entity_type: &str,
    entity_id: &str,
) -> (r: Option<u128>)
    requires
        old(directory).wf(),
    ensures
        final(directory).wf(),
        r == registered_uid(old(directory)@, actor_key_of(tenant@, entity_type@, entity_id@)),
        final(directory)@ == if r is Some {
            old(directory)@
        } else {
            without_entity(old(directory)@, tenant@, entity_type@, entity_id@, true)
        },
{
    let key = actor_key(tenant, entity_type, entity_id);
    let current: Option<u128> = match directory.registry.get(&key) {
        Some(uid) => Some(*uid),
        None => None,
    };
    if current.is_none() {
        let _ = directory.remove_entity_actor_incarnation_if_current(
            tenant,
            entity_type,
            entity_id,
            None,
            true,
        );
    }
    current
}

/// Ends a removal once the incarnation was asked to stop.
pub fn settle_removal(
    directory: &mut ActorDirectory,
    tenant: &str,
    entity_type: &str,
    entity_id: &str,
    uid: u128,
    stop: StopOutcome,
) -> (r: RemovalEnd)
    requires
        old(directory).wf(),
    ensures
        final(directory).wf(),
        ({
            let current = is_current(
                old(directory)@,
                actor_key_of(tenant@, entity_type@, entity_id@),
                uid,
            );
            &&& r == (match stop {
                StopOutcome::Refused => RemovalEnd::Kept,
                StopOutcome::Stopped => RemovalEnd::Removed(current),
                StopOutcome::Stopping { can_wait: true } => RemovalEnd::Background,
                StopOutcome::Stopping { can_wait: false } => RemovalEnd::Kept,
            })
            &&& final(directory)@ == if stop is Stopped && current {
                without_entity(old(directory)@, tenant@, entity_type@, entity_id@, true)
            } else {
                old(directory)@
            }
        }),
{
    match stop {
        StopOutcome::Refused => RemovalEnd::Kept,
        StopOutcome::Stopped => RemovalEnd::Removed(
            directory.remove_entity_actor_incarnation_if_current(
                tenant,
                entity_type,
                entity_id,
                Some(uid),
                true,
            ),
        ),
        StopOutcome::Stopping { can_wait } => if can_wait {
            RemovalEnd::Background
        } else {
            RemovalEnd::Kept
        },
    }
}

// ---------------------------------------------------------------------------
// A spawn whose first request failed
// ---------------------------------------------------------------------------

/// What the journal says of an entity.
#[derive(Clone, Copy, PartialEq, Eq, Structural, Debug)]
pub enum JournalEvidence {
    /// There is no journal.
    NoJournal,
    /// The journal holds nothing of the entity.
    Empty,
    /// The journal holds events of the entity.
    Events,
    /// The journal could not be read.
    Unknown,
}

/// The evidence shows that the entity never came to be.
pub open spec fn never_existed(evidence: JournalEvidence) -> bool {
    evidence is NoJournal || evidence is Empty
}

/// Removes a spawned actor whose first request failed, and says whether it
/// still was the registered one. Its listing goes only where nothing durable
/// can exist: an unreadable or filled journal keeps it for recovery.
pub fn discard_uncommitted_spawn_after_dispatch_failure(
    directory: &mut ActorDirectory,
    tenant: &str,
    entity_type: &str,
    entity_id: &str,
    failed: u128,
    evidence: JournalEvidence,
) -> (r: bool)
    requires
        old(directory).wf(),
    ensures
        final(directory).wf(),
        r == is_current(
            old(directory)@,
            actor_key_of(tenant@, entity_type@, entity_id@),
            failed,
        ),
        final(directory)@ == if r {
            without_entity(
                old(directory)@,
                tenant@,
                entity_type@,
                entity_id@,
                never_existed(evidence),
            )
        } else {
            old(directory)@
        },
{
    let unlist: bool = match evidence {
        JournalEvidence::NoJournal => true,
        JournalEvidence::Empty => true,
        JournalEvidence::Events => false,
        JournalEvidence::Unknown => false,
    };
    directory.remove_entity_actor_incarnation_if_current(
        tenant,
        entity_type,
        entity_id,
        Some(failed),
        unlist,
    )
}

/// An eviction drains the registered incarnation and no other, and only the expected one
/// where one is expected. It succeeds on the spot only where nothing is registered and
/// nothing was expected, and gives up once its tries are used.
pub proof fn law_evictions_drain_what_is_registered(at: Eviction, current: Option<u128>)
    ensures
        eviction_step(at, current) matches EvictionStep::Drain(uid) ==> current == Some(uid) && (
        at.expected is None || at.expected == Some(uid)) && at.tries_left > 0,
        eviction_step(at, current) == EvictionStep::Done(true) ==> current is None && at.expected
            is None && at.tries_left > 0,
        at.tries_left == 0 ==> eviction_step(at, current) == EvictionStep::Done(false),
        at.tries_left > 0 && current is None ==> eviction_step(at, current) == EvictionStep::Done(
            at.expected is None,
        ),
        at.tries_left > 0 && current is Some && (at.expected is None || at.expected == current)
            ==> eviction_step(at, current) == EvictionStep::Drain(current->0),
{
}

/// The removal of an entity touches no other entity: its actor, its stamp and its
/// listing stay. Where the listing is kept, the index does not change at all.
pub proof fn law_removals_spare_other_entities(
    d: DirectoryModel,
    tenant: Seq<char>,
    entity_type: Seq<char>,
    entity_id: Seq<char>,
    unlist: bool,
    key: Seq<char>,
    other_index: Seq<char>,
    other_id: Seq<char>,
)
    requires
        key != actor_key_of(tenant, entity_type, entity_id),
        other_index != index_key_of(tenant, entity_type) || other_id != entity_id,
    ensures
        ({
            let after = without_entity(d, tenant, entity_type, entity_id, unlist);
            &&& registered_uid(after, key) == registered_uid(d, key)
            &&& after.stamps.dom().contains(key) == d.stamps.dom().contains(key)
            &&& d.stamps.dom().contains(key) ==> after.stamps[key] == d.stamps[key]
            &&& lists(after.index, other_index, other_id) == lists(d.index, other_index, other_id)
            &&& after.hydrated == d.hydrated
            &&& !unlist ==> after.index == d.index
            &&& registered_uid(after, actor_key_of(tenant, entity_type, entity_id)) is None
        }),
{
    law_other_entities_stay_listed(
        d.index,
        index_key_of(tenant, entity_type),
        entity_id,
        other_index,
        other_id,
    );
}

/// The registered incarnation is the current one, and there is at most one.
pub proof fn law_the_registered_incarnation_is_current(
    d: DirectoryModel,
    key: Seq<char>,
    uid: u128,
)
    ensures
        registered_uid(d, key) == Some(uid) <==> is_current(d, key, uid),
        registered_uid(d, key) is None <==> !d.registry.dom().contains(key),
{
}

/// Only a journal that is not there, or was read and holds nothing, shows that an entity
/// never came to be: events speak against it, and a failed reading says nothing.
pub proof fn law_doubt_keeps_listings(evidence: JournalEvidence)
    ensures
        evidence is Events || evidence is Unknown ==> !never_existed(evidence),
        evidence is Empty || evidence is NoJournal ==> never_existed(evidence),
{
}

} // verus!
