//! Passivating actors that nobody has used for a while.

use vstd::prelude::*;
use vstd::string::*;

use crate::directory::is_current;
use crate::directory::ActorDirectory;
use crate::directory::DirectoryModel;
use crate::directory::stamped;
use crate::eviction::without_entity;
use crate::keys::has_three_parts;
use crate::keys::key_head;
use crate::keys::key_tail;
use crate::keys::law_parsed_keys_are_rebuilt;
use crate::keys::parse_actor_key;
use crate::state_cache::holds;
use crate::state_cache::others;
use crate::state_cache::EntityStateCache;
use crate::timestamps::Timestamp;

verus! {

/// An actor that nobody has used since the cutoff.
pub struct IdleActor {
    pub key: String,
    pub uid: u128,
}

/// The actor under a key was last used at or before the cutoff.
pub open spec fn unused_since(d: DirectoryModel, key: Seq<char>, cutoff: Timestamp) -> bool {
    d.stamps.dom().contains(key) && d.stamps[key].at_or_before(cutoff)
}

/// Those of the keys whose actors are unused since the cutoff, in their order.
pub open spec fn unused_keys(
    keys: Seq<Seq<char>>,
    d: DirectoryModel,
    cutoff: Timestamp,
) -> Seq<Seq<char>> {
    keys.filter(|key: Seq<char>| unused_since(d, key, cutoff))
}

/// The keys of the actors, in their order.
pub open spec fn idle_keys(actors: Seq<IdleActor>) -> Seq<Seq<char>> {
    actors.map_values(|a: IdleActor| a.key@)
}

/// The registered actors that nobody has used since the cutoff, in the order of
/// their keys.
pub fn passivation_candidates(directory: &ActorDirectory, cutoff: Timestamp) -> (r: Vec<IdleActor>)
    requires
        directory.wf(),
    ensures
        idle_keys(r@) == unused_keys(directory.registry.order(), directory@, cutoff),
        forall|i: int|
            0 <= i < r@.len() ==> is_current(directory@, (#[trigger] r@[i]).key@, r@[i].uid),
{
    let n: usize = directory.registry.len();
    let ghost order = directory.registry.order();
    let ghost keep = |key: Seq<char>| unused_since(directory@, key, cutoff);
    let mut r: Vec<IdleActor> = Vec::new();
    let mut i: usize = 0;
    proof {
        reveal(Seq::filter);
        assert(order.take(0) =~= Seq::<Seq<char>>::empty());
        assert(idle_keys(r@) =~= Seq::<Seq<char>>::empty());
    }
    while i < n
        invariant
            i <= n,
            directory.wf(),
            order == directory.registry.order(),
            n == order.len(),
            keep == (|key: Seq<char>| unused_since(directory@, key, cutoff)),
            idle_keys(r@) == order.take(i as int).filter(keep),
            forall|j: int|
                0 <= j < r@.len() ==> is_current(directory@, (#[trigger] r@[j]).key@, r@[j].uid),
        decreases n - i,
    {
        let key = directory.registry.key_at(i);
        let uid: u128 = *directory.registry.value_at(i);
        let unused: bool = match directory.last_accessed.get(key) {
            Some(seen) => seen.not_after(&cutoff),
            None => false,
        };
        proof {
            reveal(Seq::filter);
            let long = order.take(i + 1);
            assert(long.drop_last() =~= order.take(i as int));
            assert(long.last() == key@);
        }
        if unused {
            let ghost before = r@;
            r.push(IdleActor { key: key.clone(), uid });
            assert(idle_keys(r@) =~= idle_keys(before).push(key@));
        }
        i += 1;
    }
    assert(order.take(n as int) =~= order);
    r
}

/// Whether a snapshot of an actor's state is to be saved: there is a journal,
/// and the actor answered with a state that the journal has seen.
pub fn snapshot_wanted(has_journal: bool, sequence_nr: Option<u64>) -> (r: bool)
    ensures
        r == (has_journal && (sequence_nr matches Some(n) && n > 0)),
        r ==> has_journal && sequence_nr is Some && sequence_nr != Some(0u64),
        has_journal && sequence_nr is Some && sequence_nr->0 >= 1 ==> r,
{
    match sequence_nr {
        Some(n) => has_journal && n > 0,
        None => false,
    }
}

/// Whether an actor still is the registered one, running and unused. Choosing
/// it and saving its snapshot both take time in which it may be used.
pub fn still_idle(
    directory: &ActorDirectory,
    actor: &IdleActor,
    stopped: bool,
    cutoff: Timestamp,
) -> (r: bool)
    requires
        directory.wf(),
    ensures
        r == (!stopped && is_current(directory@, actor.key@, actor.uid) && unused_since(
            directory@,
            actor.key@,
            cutoff,
        )),
{
    let current: bool = match directory.registry.get(&actor.key) {
        Some(uid) => !stopped && *uid == actor.uid,
        None => false,
    };
    if !current {
        return false;
    }
    match directory.last_accessed.get(&actor.key) {
        Some(seen) => seen.not_after(&cutoff),
        None => false,
    }
}

/// How an idle actor is passivated.
#[derive(Clone, Copy, PartialEq, Eq, Structural, Debug)]
pub enum PassivationPlan {
    /// Not at all.
    Skip,
    /// It is drained; there is no durable history to read.
    Drain,
    /// It is drained, and then its durable history is read.
    DrainAndRecover,
}

/// Plans the passivation of an actor that is still idle. Its type must have a
/// transition table, or else nothing could read its history again.
pub fn plan_passivation(key: &str, has_journal: bool, has_table: bool) -> (r: PassivationPlan)
    ensures
        r == (if !has_three_parts(key@) {
            PassivationPlan::Skip
        } else if !has_journal {
            PassivationPlan::Drain
        } else if has_table {
            PassivationPlan::DrainAndRecover
        } else {
            PassivationPlan::Skip
        }),
        r is DrainAndRecover <==> has_three_parts(key@) && has_journal && has_table,
        r is Drain <==> has_three_parts(key@) && !has_journal,
{
    if parse_actor_key(key).is_none() {
        return PassivationPlan::Skip;
    }
    if !has_journal {
        return PassivationPlan::Drain;
    }
    if has_table {
        PassivationPlan::DrainAndRecover
    } else {
        PassivationPlan::Skip
    }
}

/// How the drain of an idle actor went, and the recovery after it.
#[derive(Clone, Copy, PartialEq, Eq, Structural, Debug)]
pub enum PassivationDrain {
    /// The actor did not drain.
    NotDrained,
    /// The actor drained, and its history was read, where there is one.
    Drained,
    /// The actor drained, but the history could not be read.
    Unrecovered,
}

/// What became of an idle actor.
#[derive(Clone, Copy, PartialEq, Eq, Structural, Debug)]
pub enum PassivationEnd {
    /// Nothing: it stays, or a successor has taken its place.
    Skipped,
    /// It was passivated.
    Passivated,
    /// It was removed, and its actor has to be spawned again from the history.
    Rematerialize,
}

/// The actor leaves the registry: it drained, and no successor has taken its place.
pub open spec fn leaves(
    d: DirectoryModel,
    key: Seq<char>,
    uid: u128,
    drain: PassivationDrain,
) -> bool {
    drain !is NotDrained && is_current(d, key, uid)
}

/// The directory after the passivation of an actor.
pub open spec fn directory_after(
    d: DirectoryModel,
    key: Seq<char>,
    uid: u128,
    drain: PassivationDrain,
) -> DirectoryModel {
    if leaves(d, key, uid, drain) {
        without_entity(
            d,
            key_head(key)->0,
            key_head(key_tail(key))->0,
            key_tail(key_tail(key)),
            false,
        )
    } else {
        d
    }
}

/// Takes in how the drain went. Where the actor still is the registered one it
/// leaves the registry and the cache. Its entity stays listed in any case: an idle
/// actor says nothing about its entity, and a later request spawns it again.
pub fn settle_passivation(
    directory: &mut ActorDirectory,
    cache: &mut EntityStateCache,
    actor: &IdleActor,
    drain: PassivationDrain,
) -> (r: PassivationEnd)
    requires
        old(directory).wf(),
        old(cache).wf(),
        has_three_parts(actor.key@),
    ensures
        final(directory).wf(),
        final(cache).wf(),
        final(cache).limit() == old(cache).limit(),
        final(directory)@ == directory_after(old(directory)@, actor.key@, actor.uid, drain),
        final(cache).entries() == if leaves(old(directory)@, actor.key@, actor.uid, drain) {
            others(old(cache).entries(), actor.key@)
        } else {
            old(cache).entries()
        },
        r == (if drain is Unrecovered {
            PassivationEnd::Rematerialize
        } else if leaves(old(directory)@, actor.key@, actor.uid, drain) {
            PassivationEnd::Passivated
        } else {
            PassivationEnd::Skipped
        }),
{
    let parts = match parse_actor_key(actor.key.as_str()) {
        Some(parts) => parts,
        None => {
            return PassivationEnd::Skipped;
        },
    };
    proof {
        law_parsed_keys_are_rebuilt(actor.key@);
    }
    if drain == PassivationDrain::NotDrained {
        return PassivationEnd::Skipped;
    }
    let removed: bool = directory.remove_entity_actor_incarnation_if_current(
        parts.tenant,
        parts.entity_type,
        parts.entity_id,
        Some(actor.uid),
        false,
    );
    if removed {
        cache.forget(&actor.key);
    }
    if drain == PassivationDrain::Unrecovered {
        PassivationEnd::Rematerialize
    } else if removed {
        PassivationEnd::Passivated
    } else {
        PassivationEnd::Skipped
    }
}

/// How many of the ends are passivations.
pub open spec fn passivated_among(ends: Seq<PassivationEnd>) -> nat
    decreases ends.len(),
{
    if ends.len() == 0 {
        0
    } else {
        passivated_among(ends.drop_last()) + if ends.last() is Passivated {
            1nat
        } else {
            0nat
        }
    }
}

/// How many actors were passivated.
pub fn count_passivated(ends: &Vec<PassivationEnd>) -> (r: usize)
    ensures
        r == passivated_among(ends@),
{
    let mut count: usize = 0;
    let mut i: usize = 0;
    assert(ends@.take(0) =~= Seq::<PassivationEnd>::empty());
    while i < ends.len()
        invariant
            i <= ends@.len(),
            count <= i,
            count == passivated_among(ends@.take(i as int)),
        decreases ends@.len() - i,
    {
        proof {
            let long = ends@.take(i + 1);
            assert(long.drop_last() =~= ends@.take(i as int));
            assert(long.last() == ends@[i as int]);
        }
        if ends[i] == PassivationEnd::Passivated {
            count += 1;
        }
        i += 1;
    }
    assert(ends@.take(i as int) =~= ends@);
    count
}

/// Passivation changes no listing, however it went.
pub proof fn law_passivation_keeps_listings(
    d: DirectoryModel,
    key: Seq<char>,
    uid: u128,
    drain: PassivationDrain,
)
    ensures
        directory_after(d, key, uid, drain).index == d.index,
{
}

/// What passivation takes out of the registry was the idle actor, and its access
/// stamp goes with it; every other key stays registered to the same actor, with the
/// stamp that it had.
pub proof fn law_passivation_takes_the_idle_actor_alone(
    d: DirectoryModel,
    key: Seq<char>,
    uid: u128,
    drain: PassivationDrain,
    other: Seq<char>,
)
    requires
        has_three_parts(key),
    ensures
        ({
            let after = directory_after(d, key, uid, drain);
            &&& other != key ==> after.registry.dom().contains(other)
                == d.registry.dom().contains(other) && after.stamps.dom().contains(other)
                == d.stamps.dom().contains(other)
            &&& other != key && d.registry.dom().contains(other) ==> after.registry[other]
                == d.registry[other]
            &&& other != key && d.stamps.dom().contains(other) ==> after.stamps[other]
                == d.stamps[other]
            &&& d.registry.dom().contains(key) && !after.registry.dom().contains(key)
                ==> d.registry[key] == uid && !after.stamps.dom().contains(key)
        }),
{
    law_parsed_keys_are_rebuilt(key);
}

/// The directory and the entries of the state cache.
pub struct Residents {
    pub directory: DirectoryModel,
    pub cached: Seq<(Seq<char>, Seq<char>, i64, u32)>,
}

/// The directory and the cache after the passivation of these actors, one after the
/// other.
pub open spec fn residents_after(
    before: Residents,
    actors: Seq<IdleActor>,
    drains: Seq<PassivationDrain>,
) -> Residents
    decreases actors.len(),
{
    if actors.len() == 0 {
        before
    } else {
        let prior = residents_after(before, actors.drop_last(), drains.drop_last());
        let actor = actors.last();
        let drain = drains.last();
        Residents {
            directory: directory_after(prior.directory, actor.key@, actor.uid, drain),
            cached: if leaves(prior.directory, actor.key@, actor.uid, drain) {
                others(prior.cached, actor.key@)
            } else {
                prior.cached
            },
        }
    }
}

/// The entries of all other keys hold what was held, but for the key.
proof fn lemma_others_hold(
    entries: Seq<(Seq<char>, Seq<char>, i64, u32)>,
    key: Seq<char>,
    held: Seq<char>,
)
    ensures
        holds(others(entries, key), held) ==> held != key && holds(entries, held),
    decreases entries.len(),
{
    let all = others(entries, key);
    if entries.len() > 0 && holds(all, held) {
        let front = entries.drop_last();
        let last = entries[entries.len() - 1];
        lemma_others_hold(front, key, held);
        let i = choose|i: int| 0 <= i < all.len() && (#[trigger] all[i]).0 == held;
        if i < others(front, key).len() {
            assert(others(front, key)[i].0 == held);
            let j = choose|j: int| 0 <= j < front.len() && (#[trigger] front[j]).0 == held;
            assert(entries[j].0 == held);
        } else {
            assert(last.0 == held);
        }
    }
}

/// A whole run of passivation changes no listing, whatever came of each actor. Every
/// registered key that was used since the cutoff, or has no stamp, is still
/// registered to the same actor; and every key that left the registry left the stamps
/// and the cache too. Actors that are spawned again afterwards are another matter.
pub proof fn law_passivation_runs_keep_what_is_used(
    before: Residents,
    actors: Seq<IdleActor>,
    drains: Seq<PassivationDrain>,
    cutoff: Timestamp,
    key: Seq<char>,
)
    requires
        actors.len() == drains.len(),
        forall|i: int|
            0 <= i < actors.len() ==> has_three_parts((#[trigger] actors[i]).key@) && unused_since(
                before.directory,
                actors[i].key@,
                cutoff,
            ),
    ensures
        ({
            let after = residents_after(before, actors, drains);
            let was = before.directory.registry;
            let now = after.directory.registry;
            &&& after.directory.index == before.directory.index
            &&& was.dom().contains(key) && !unused_since(before.directory, key, cutoff)
                ==> now.dom().contains(key) && now[key] == was[key]
            &&& now.dom().contains(key) ==> was.dom().contains(key) && now[key] == was[key]
            &&& was.dom().contains(key) && !now.dom().contains(key)
                ==> !after.directory.stamps.dom().contains(key) && !holds(after.cached, key)
        }),
    decreases actors.len(),
{
    if actors.len() > 0 {
        let shorter = actors.drop_last();
        assert forall|i: int| 0 <= i < shorter.len() implies has_three_parts(
            (#[trigger] shorter[i]).key@,
        ) && unused_since(before.directory, shorter[i].key@, cutoff) by {
            assert(shorter[i] == actors[i]);
        }
        law_passivation_runs_keep_what_is_used(before, shorter, drains.drop_last(), cutoff, key);
        let prior = residents_after(before, shorter, drains.drop_last());
        let actor = actors[actors.len() - 1];
        law_passivation_keeps_listings(
            prior.directory,
            actor.key@,
            actor.uid,
            drains.last(),
        );
        law_passivation_takes_the_idle_actor_alone(
            prior.directory,
            actor.key@,
            actor.uid,
            drains.last(),
            key,
        );
        lemma_others_hold(prior.cached, actor.key@, key);
    }
}

/// The actors that are chosen are those among the keys whose last use is not after the
/// cutoff: none without a stamp, none that was used later, and no one is left out.
pub proof fn law_unused_actors_are_chosen(
    keys: Seq<Seq<char>>,
    d: DirectoryModel,
    cutoff: Timestamp,
    key: Seq<char>,
)
    ensures
        unused_keys(keys, d, cutoff).contains(key) <==> keys.contains(key) && d.stamps.dom().contains(
            key,
        ) && (d.stamps[key].secs < cutoff.secs || (d.stamps[key].secs == cutoff.secs
            && d.stamps[key].nanos <= cutoff.nanos)),
{
    let p = |k: Seq<char>| unused_since(d, k, cutoff);
    let kept = keys.filter(p);
    if kept.contains(key) {
        let i = choose|i: int| 0 <= i < kept.len() && kept[i] == key;
        keys.lemma_filter_contains_rev(p, key);
        keys.lemma_filter_pred(p, i);
    }
    if keys.contains(key) && unused_since(d, key, cutoff) {
        let i = choose|i: int| 0 <= i < keys.len() && keys[i] == key;
        keys.lemma_filter_contains(p, i);
    }
}

/// An actor that is used after the cutoff is not idle, and one that was idle at a cutoff
/// is idle at every later one.
pub proof fn law_use_ends_idleness(
    d: DirectoryModel,
    key: Seq<char>,
    now: Timestamp,
    cutoff: Timestamp,
    later: Timestamp,
)
    requires
        cutoff.at_or_before(later),
    ensures
        cutoff.secs < now.secs ==> !unused_since(stamped(d, key, now), key, cutoff),
        unused_since(d, key, cutoff) ==> unused_since(d, key, later),
        unused_since(stamped(d, key, now), key, now),
{
}

/// An actor that did not drain stays registered, and so does a successor; a drained one
/// that is the registered one leaves with its stamp.
pub proof fn law_drained_actors_leave(
    d: DirectoryModel,
    key: Seq<char>,
    uid: u128,
    drain: PassivationDrain,
)
    requires
        has_three_parts(key),
        d.registry.dom().contains(key),
    ensures
        drain is NotDrained ==> directory_after(d, key, uid, drain) == d,
        d.registry[key] != uid ==> directory_after(d, key, uid, drain) == d,
        !(drain is NotDrained) && d.registry[key] == uid ==> !directory_after(
            d,
            key,
            uid,
            drain,
        ).registry.dom().contains(key) && !directory_after(
            d,
            key,
            uid,
            drain,
        ).stamps.dom().contains(key),
{
    law_parsed_keys_are_rebuilt(key);
}

/// The count is the number of those ends that are passivations.
pub proof fn law_only_passivations_are_counted(ends: Seq<PassivationEnd>)
    ensures
        passivated_among(ends) == ends.filter(
            |e: PassivationEnd| e == PassivationEnd::Passivated,
        ).len(),
    decreases ends.len(),
{
    reveal(Seq::filter);
    if ends.len() > 0 {
        law_only_passivations_are_counted(ends.drop_last());
    }
}

} // verus!
