//! Backfill of the declared-key index, and the watermark that ends it.
//!
//! A keyed read that misses means absence only once every existing entity of
//! the type was keyed, or was found to have nothing to key.

use vstd::prelude::*;
use vstd::string::*;

use crate::coverage::CoveredType;
use crate::entity_load::EntityLoadOutcome;
use crate::json::JsonValue;
use crate::sorted::texts;
use crate::sorted::SortedSet;
use crate::text::same_text;

verus! {

// ---------------------------------------------------------------------------
// One type
// ---------------------------------------------------------------------------

/// What a backfill has to do for a type.
#[derive(Clone, Copy)]
pub enum KeyTypePlan {
    /// Its watermark covers the declared keys.
    UpToDate,
    /// Its watermark covers other keys: every entity is keyed anew.
    FullRekey,
    /// It has no watermark.
    FirstTime,
}

/// Decides what a backfill has to do for a type.
pub fn plan_key_backfill(covered: Option<&str>, current_key_set: &str) -> (r: KeyTypePlan)
    ensures
        match covered {
            Some(c) => if c@ == current_key_set@ {
                r is UpToDate
            } else {
                r is FullRekey
            },
            None => r is FirstTime,
        },
{
    match covered {
        Some(c) => {
            if same_text(c, current_key_set) {
                KeyTypePlan::UpToDate
            } else {
                KeyTypePlan::FullRekey
            }
        },
        None => KeyTypePlan::FirstTime,
    }
}

/// Which entities are keyed already, and whether that is known at all.
pub struct KeyedMembership {
    pub already_keyed: SortedSet<String>,
    pub known: bool,
}

/// What is known of the keyed entities: nothing where every entity is keyed
/// anew, and nothing where the store could not say.
pub fn keyed_membership(plan: KeyTypePlan, listed: Option<Vec<String>>) -> (r: KeyedMembership)
    ensures
        r.already_keyed.wf(),
        plan is FullRekey || listed is None ==> !r.known && r.already_keyed@ == Set::<
            Seq<char>,
        >::empty(),
        !(plan is FullRekey) && listed is Some ==> r.known && r.already_keyed@ == texts(
            listed->0@,
        ).to_set(),
{
    match plan {
        KeyTypePlan::FullRekey => KeyedMembership { already_keyed: SortedSet::new(), known: false },
        _ => match listed {
            Some(ids) => KeyedMembership { already_keyed: SortedSet::from_strings(&ids), known: true },
            None => KeyedMembership { already_keyed: SortedSet::new(), known: false },
        },
    }
}

// ---------------------------------------------------------------------------
// One entity
// ---------------------------------------------------------------------------

/// One row of the key index; an empty hash releases the key.
pub struct EntityKeyRow {
    pub key_name: String,
    pub key_hash: String,
}

/// A declared key and the hash of its value, where all its parts are there.
pub struct ResolvedKey {
    pub key_name: String,
    pub key_hash: Option<String>,
}

pub open spec fn row_view(row: EntityKeyRow) -> (Seq<char>, Seq<char>) {
    (row.key_name@, row.key_hash@)
}

pub open spec fn row_views(rows: Seq<EntityKeyRow>) -> Seq<(Seq<char>, Seq<char>)> {
    rows.map_values(|r: EntityKeyRow| row_view(r))
}

/// One row for each declared key: its hash, or a release.
pub open spec fn claims(keys: Seq<ResolvedKey>) -> Seq<(Seq<char>, Seq<char>)> {
    keys.map_values(
        |k: ResolvedKey|
            (
                k.key_name@,
                match k.key_hash {
                    Some(h) => h@,
                    None => Seq::empty(),
                },
            ),
    )
}

/// A release for each declared key.
pub open spec fn releases(keys: Seq<ResolvedKey>) -> Seq<(Seq<char>, Seq<char>)> {
    keys.map_values(|k: ResolvedKey| (k.key_name@, Seq::<char>::empty()))
}

/// Some key of the entity has a value.
pub open spec fn any_hash(keys: Seq<ResolvedKey>) -> bool {
    exists|i: int| 0 <= i < keys.len() && (#[trigger] keys[i]).key_hash is Some
}

/// Some key of the entity has no value.
pub open spec fn any_release(keys: Seq<ResolvedKey>) -> bool {
    exists|i: int| 0 <= i < keys.len() && (#[trigger] keys[i]).key_hash is None
}

/// What a backfill does with one entity.
pub enum KeyEntityStep {
    /// Alive, keyed in full and in the index already.
    Already,
    /// Nothing to key and nothing to release.
    Skip,
    /// Write these rows; a claim if one of them has a hash.
    Write { rows: Vec<EntityKeyRow>, claim: bool },
    /// It exists and could not be loaded.
    Fail,
}

fn claim_rows(keys: &Vec<ResolvedKey>) -> (r: (Vec<EntityKeyRow>, bool, bool))
    ensures
        row_views(r.0@) == claims(keys@),
        r.1 == any_hash(keys@),
        r.2 == any_release(keys@),
{
    let mut rows: Vec<EntityKeyRow> = Vec::new();
    let mut hashed = false;
    let mut released = false;
    let mut i: usize = 0;
    while i < keys.len()
        invariant
            i <= keys@.len(),
            row_views(rows@) == claims(keys@).take(i as int),
            hashed == any_hash(keys@.take(i as int)),
            released == any_release(keys@.take(i as int)),
        decreases keys@.len() - i,
    {
        let ghost prior = row_views(rows@);
        let ghost seen = keys@.take(i as int);
        let ghost next = keys@.take(i + 1);
        let key: &ResolvedKey = &keys[i];
        let hash = match &key.key_hash {
            Some(h) => {
                hashed = true;
                h.clone()
            },
            None => {
                released = true;
                String::new()
            },
        };
        rows.push(EntityKeyRow { key_name: key.key_name.clone(), key_hash: hash });
        proof {
            assert(row_views(rows@) =~= prior.push(claims(keys@)[i as int]));
            assert(claims(keys@).take(i + 1) =~= claims(keys@).take(i as int).push(
                claims(keys@)[i as int],
            ));
            assert(next[i as int] == *key);
            assert forall|j: int| 0 <= j < i implies #[trigger] next[j] == seen[j] by {}
            if any_hash(seen) {
                let j = choose|j: int| 0 <= j < seen.len() && (#[trigger] seen[j]).key_hash is Some;
                assert(next[j].key_hash is Some);
            }
            if any_release(seen) {
                let j = choose|j: int| 0 <= j < seen.len() && (#[trigger] seen[j]).key_hash is None;
                assert(next[j].key_hash is None);
            }
            if any_hash(next) && key.key_hash is None {
                let j = choose|j: int| 0 <= j < next.len() && (#[trigger] next[j]).key_hash is Some;
                assert(seen[j].key_hash is Some);
            }
            if any_release(next) && key.key_hash is Some {
                let j = choose|j: int| 0 <= j < next.len() && (#[trigger] next[j]).key_hash is None;
                assert(seen[j].key_hash is None);
            }
        }
        i += 1;
    }
    assert(keys@.take(keys@.len() as int) =~= keys@);
    assert(claims(keys@).take(keys@.len() as int) =~= claims(keys@));
    (rows, hashed, released)
}

fn release_rows(keys: &Vec<ResolvedKey>) -> (r: Vec<EntityKeyRow>)
    ensures
        row_views(r@) == releases(keys@),
{
    let mut rows: Vec<EntityKeyRow> = Vec::new();
    let mut i: usize = 0;
    while i < keys.len()
        invariant
            i <= keys@.len(),
            row_views(rows@) == releases(keys@).take(i as int),
        decreases keys@.len() - i,
    {
        let ghost prior = row_views(rows@);
        rows.push(EntityKeyRow { key_name: keys[i].key_name.clone(), key_hash: String::new() });
        proof {
            assert(row_views(rows@) =~= prior.push(releases(keys@)[i as int]));
            assert(releases(keys@).take(i + 1) =~= releases(keys@).take(i as int).push(
                releases(keys@)[i as int],
            ));
        }
        i += 1;
    }
    assert(releases(keys@).take(keys@.len() as int) =~= releases(keys@));
    rows
}

/// What is right for one entity. `keys` are the declared keys with their values
/// in the entity's fields.
pub open spec fn step_says(
    step: KeyEntityStep,
    outcome: EntityLoadOutcome,
    keys: Seq<ResolvedKey>,
    was_already_keyed: bool,
    membership_known: bool,
) -> bool {
    match outcome {
        EntityLoadOutcome::LoadFailed => step is Fail,
        EntityLoadOutcome::Missing { .. } => step is Skip,
        EntityLoadOutcome::Deleted { .. } => step matches KeyEntityStep::Write { rows, claim }
            && row_views(rows@) == releases(keys) && !claim,
        EntityLoadOutcome::Fields { fields, .. } => if !(fields is Object) {
            step is Skip
        } else if was_already_keyed && !any_release(keys) {
            step is Already
        } else if !any_hash(keys) && !was_already_keyed && membership_known {
            step is Skip
        } else {
            step matches KeyEntityStep::Write { rows, claim } && row_views(rows@) == claims(keys)
                && claim == any_hash(keys)
        },
    }
}

/// The entity is alive and its fields can be keyed.
pub open spec fn is_living(outcome: EntityLoadOutcome) -> bool {
    outcome matches EntityLoadOutcome::Fields { fields, .. } && fields is Object
}

/// One of the rows that the step writes holds the key with this hash.
pub open spec fn writes_row(step: KeyEntityStep, name: Seq<char>, hash: Seq<char>) -> bool {
    step is Write && exists|j: int|
        0 <= j < step->rows@.len() && (#[trigger] step->rows@[j]).key_name@ == name
            && step->rows@[j].key_hash@ == hash
}

/// Decides what a backfill does with one entity. A living entity that is not in the
/// index is claimed under each key that has a value, whatever its other keys come
/// to; one that is in the index gives up each key that has lost its value; and a
/// deleted one gives up all of them.
pub fn key_entity_step(
    outcome: &EntityLoadOutcome,
    keys: &Vec<ResolvedKey>,
    was_already_keyed: bool,
    membership_known: bool,
) -> (r: KeyEntityStep)
    ensures
        step_says(r, *outcome, keys@, was_already_keyed, membership_known),
        is_living(*outcome) && !was_already_keyed ==> forall|i: int|
            0 <= i < keys@.len() && (#[trigger] keys@[i]).key_hash is Some ==> writes_row(
                r,
                keys@[i].key_name@,
                keys@[i].key_hash->0@,
            ),
        is_living(*outcome) && was_already_keyed ==> forall|i: int|
            0 <= i < keys@.len() && (#[trigger] keys@[i]).key_hash is None ==> writes_row(
                r,
                keys@[i].key_name@,
                Seq::empty(),
            ),
        *outcome is Deleted ==> forall|i: int|
            0 <= i < keys@.len() ==> writes_row(
                r,
                (#[trigger] keys@[i]).key_name@,
                Seq::empty(),
            ),
{
    let r = decide_entity_step(outcome, keys, was_already_keyed, membership_known);
    proof {
        assert forall|i: int| 0 <= i < keys@.len() && r is Write implies {
            &&& is_living(*outcome) && (#[trigger] keys@[i]).key_hash is Some ==> writes_row(
                r,
                keys@[i].key_name@,
                keys@[i].key_hash->0@,
            )
            &&& is_living(*outcome) && keys@[i].key_hash is None ==> writes_row(
                r,
                keys@[i].key_name@,
                Seq::empty(),
            )
            &&& *outcome is Deleted ==> writes_row(r, keys@[i].key_name@, Seq::empty())
        } by {
            lemma_written_row(r, *outcome, keys@, was_already_keyed, membership_known, i);
        }
    }
    r
}

/// Each declared key has its row in what is written.
proof fn lemma_written_row(
    step: KeyEntityStep,
    outcome: EntityLoadOutcome,
    keys: Seq<ResolvedKey>,
    was_already_keyed: bool,
    membership_known: bool,
    i: int,
)
    requires
        step_says(step, outcome, keys, was_already_keyed, membership_known),
        step is Write,
        0 <= i < keys.len(),
    ensures
        is_living(outcome) || outcome is Deleted,
        step->rows@.len() == keys.len(),
        step->rows@[i].key_name@ == keys[i].key_name@,
        step->rows@[i].key_hash@ == (if is_living(outcome) && keys[i].key_hash is Some {
            keys[i].key_hash->0@
        } else {
            Seq::<char>::empty()
        }),
{
    let views = row_views(step->rows@);
    assert(views.len() == step->rows@.len());
    assert(views[i] == row_view(step->rows@[i]));
}

/// A living entity that is not in the index yet is claimed under every key that has
/// a value, whatever its other keys come to; and nothing but the index itself can
/// make the backfill pass such a key by.
pub proof fn law_every_key_with_a_value_is_claimed(
    step: KeyEntityStep,
    outcome: EntityLoadOutcome,
    keys: Seq<ResolvedKey>,
    was_already_keyed: bool,
    membership_known: bool,
    i: int,
)
    requires
        step_says(step, outcome, keys, was_already_keyed, membership_known),
        is_living(outcome),
        0 <= i < keys.len(),
        keys[i].key_hash is Some,
    ensures
        was_already_keyed || writes_row(step, keys[i].key_name@, keys[i].key_hash->0@),
        step is Write ==> step->claim && writes_row(
            step,
            keys[i].key_name@,
            keys[i].key_hash->0@,
        ),
        !(step is Skip) && !(step is Fail),
{
    if step is Write {
        lemma_written_row(step, outcome, keys, was_already_keyed, membership_known, i);
        assert(step->rows@[i].key_name@ == keys[i].key_name@);
    }
}

/// A living entity that is in the index gives up every key that has lost its value,
/// so that a reader of that key no longer finds it.
pub proof fn law_lost_keys_are_released(
    step: KeyEntityStep,
    outcome: EntityLoadOutcome,
    keys: Seq<ResolvedKey>,
    membership_known: bool,
    i: int,
)
    requires
        step_says(step, outcome, keys, true, membership_known),
        is_living(outcome),
        0 <= i < keys.len(),
        keys[i].key_hash is None,
    ensures
        writes_row(step, keys[i].key_name@, Seq::empty()),
{
    lemma_written_row(step, outcome, keys, true, membership_known, i);
    assert(step->rows@[i].key_name@ == keys[i].key_name@);
}

/// A write brings no key that was not declared, and no hash that the key did not
/// come to.
pub proof fn law_only_resolved_keys_are_written(
    step: KeyEntityStep,
    outcome: EntityLoadOutcome,
    keys: Seq<ResolvedKey>,
    was_already_keyed: bool,
    membership_known: bool,
    name: Seq<char>,
    hash: Seq<char>,
)
    requires
        step_says(step, outcome, keys, was_already_keyed, membership_known),
        writes_row(step, name, hash),
        hash.len() > 0,
    ensures
        is_living(outcome),
        exists|i: int|
            0 <= i < keys.len() && (#[trigger] keys[i]).key_name@ == name && keys[i].key_hash is Some
                && keys[i].key_hash->0@ == hash,
{
    let j = choose|j: int|
        0 <= j < step->rows@.len() && (#[trigger] step->rows@[j]).key_name@ == name
            && step->rows@[j].key_hash@ == hash;
    assert(row_views(step->rows@).len() == step->rows@.len());
    assert(row_views(step->rows@)[j] == row_view(step->rows@[j]));
    lemma_written_row(step, outcome, keys, was_already_keyed, membership_known, j);
    assert(keys[j].key_name@ == name);
}

/// An entity that exists and could not be loaded is never passed by, and one that is
/// not there has nothing written for it.
pub proof fn law_unread_entities_are_not_passed_by(
    step: KeyEntityStep,
    outcome: EntityLoadOutcome,
    keys: Seq<ResolvedKey>,
    was_already_keyed: bool,
    membership_known: bool,
    written: bool,
)
    requires
        step_says(step, outcome, keys, was_already_keyed, membership_known),
    ensures
        outcome is LoadFailed == step is Fail,
        outcome is Missing ==> !(step is Write),
        outcome is LoadFailed ==> is_unresolved(
            (KeyedEntity { id: Seq::empty(), outcome, keys, step, written }),
        ),
{
}

fn decide_entity_step(
    outcome: &EntityLoadOutcome,
    keys: &Vec<ResolvedKey>,
    was_already_keyed: bool,
    membership_known: bool,
) -> (r: KeyEntityStep)
    ensures
        step_says(r, *outcome, keys@, was_already_keyed, membership_known),
{
    match outcome {
        EntityLoadOutcome::LoadFailed => KeyEntityStep::Fail,
        EntityLoadOutcome::Missing { .. } => KeyEntityStep::Skip,
        EntityLoadOutcome::Deleted { .. } => KeyEntityStep::Write {
            rows: release_rows(keys),
            claim: false,
        },
        EntityLoadOutcome::Fields { fields, .. } => {
            match fields {
                JsonValue::Object(_) => {},
                _ => {
                    return KeyEntityStep::Skip;
                },
            }
            let (rows, hashed, released) = claim_rows(keys);
            if was_already_keyed && !released {
                return KeyEntityStep::Already;
            }
            if !hashed && !was_already_keyed && membership_known {
                return KeyEntityStep::Skip;
            }
            KeyEntityStep::Write { rows, claim: hashed }
        },
    }
}

/// A deleted entity keeps no key: all its rows are releases.
pub proof fn law_deleted_entities_release_every_key(
    step: KeyEntityStep,
    outcome: EntityLoadOutcome,
    keys: Seq<ResolvedKey>,
    was_already_keyed: bool,
    membership_known: bool,
    i: int,
)
    requires
        step_says(step, outcome, keys, was_already_keyed, membership_known),
        outcome is Deleted,
        0 <= i < keys.len(),
    ensures
        step is Write,
        row_views(step->rows@).len() == keys.len(),
        row_views(step->rows@)[i] == (keys[i].key_name@, Seq::<char>::empty()),
{
}

/// Without knowledge of what is in the index, an existing entity is never
/// passed over: each of its keys is claimed or released.
pub proof fn law_unknown_membership_writes_every_entity(
    step: KeyEntityStep,
    outcome: EntityLoadOutcome,
    keys: Seq<ResolvedKey>,
)
    requires
        step_says(step, outcome, keys, false, false),
        outcome matches EntityLoadOutcome::Fields { fields, .. } && fields is Object,
    ensures
        step is Write,
        row_views(step->rows@) == claims(keys),
{
}

// ---------------------------------------------------------------------------
// The counts and the watermark
// ---------------------------------------------------------------------------

/// One entity of a type: how it was loaded, what was decided, and whether its rows
/// were written.
pub struct KeyedEntity {
    pub id: Seq<char>,
    pub outcome: EntityLoadOutcome,
    /// The declared keys with their values in the entity's fields.
    pub keys: Seq<ResolvedKey>,
    pub step: KeyEntityStep,
    pub written: bool,
}

/// The entity claims a key that it did not hold.
pub open spec fn is_newly_keyed(e: KeyedEntity) -> bool {
    e.step matches KeyEntityStep::Write { claim, .. } && claim && e.written
}

/// The entity only gives keys up.
pub open spec fn is_healed(e: KeyedEntity) -> bool {
    e.step matches KeyEntityStep::Write { claim, .. } && !claim && e.written
}

/// The entity is not dealt with.
pub open spec fn is_unresolved(e: KeyedEntity) -> bool {
    e.step is Fail || (e.step is Write && !e.written)
}

/// How many of the entities are of a kind.
pub open spec fn keyed_count(all: Seq<KeyedEntity>, p: spec_fn(KeyedEntity) -> bool) -> nat
    decreases all.len(),
{
    if all.len() == 0 {
        0
    } else {
        keyed_count(all.drop_last(), p) + (if p(all.last()) {
            1nat
        } else {
            0nat
        })
    }
}

/// How the entities of a type were dealt with.
pub struct KeyBackfillCounts {
    pub newly_keyed: usize,
    pub healed: usize,
    pub already: usize,
    pub skipped: usize,
    pub failed: usize,
}

impl KeyBackfillCounts {
    /// How many entities were dealt with.
    pub open spec fn total(self) -> int {
        self.newly_keyed + self.healed + self.already + self.skipped + self.failed
    }

    /// The counts are those of these entities.
    pub open spec fn counts(self, all: Seq<KeyedEntity>) -> bool {
        &&& self.newly_keyed == keyed_count(all, |e: KeyedEntity| is_newly_keyed(e))
        &&& self.healed == keyed_count(all, |e: KeyedEntity| is_healed(e))
        &&& self.already == keyed_count(all, |e: KeyedEntity| e.step is Already)
        &&& self.skipped == keyed_count(all, |e: KeyedEntity| e.step is Skip)
        &&& self.failed == keyed_count(all, |e: KeyedEntity| is_unresolved(e))
        &&& self.total() == all.len()
    }

    /// Before the first entity.
    pub fn new() -> (r: KeyBackfillCounts)
        ensures
            r.counts(Seq::empty()),
    {
        KeyBackfillCounts { newly_keyed: 0, healed: 0, already: 0, skipped: 0, failed: 0 }
    }

    /// Counts one entity: its step, and whether its rows were written.
    pub fn record(&mut self, step: &KeyEntityStep, written: bool)
        requires
            old(self).total() < usize::MAX,
        ensures
            final(self).total() == old(self).total() + 1,
            forall|all: Seq<KeyedEntity>, e: KeyedEntity|
                old(self).counts(all) && e.step == *step && e.written == written
                    ==> #[trigger] final(self).counts(all.push(e)),
    {
        match step {
            KeyEntityStep::Already => {
                self.already = self.already + 1;
            },
            KeyEntityStep::Skip => {
                self.skipped = self.skipped + 1;
            },
            KeyEntityStep::Fail => {
                self.failed = self.failed + 1;
            },
            KeyEntityStep::Write { claim, .. } => {
                if !written {
                    self.failed = self.failed + 1;
                } else if *claim {
                    self.newly_keyed = self.newly_keyed + 1;
                } else {
                    self.healed = self.healed + 1;
                }
            },
        }
        proof {
            assert forall|all: Seq<KeyedEntity>, e: KeyedEntity|
                old(self).counts(all) && e.step == *step && e.written
                    == written implies #[trigger] self.counts(all.push(e)) by {
                assert(all.push(e).drop_last() =~= all);
                assert(all.push(e).last() == e);
            }
        }
    }

    /// Whether the type may be watermarked: nothing failed.
    pub fn may_watermark(&self) -> (r: bool)
        ensures
            r == (self.failed == 0),
    {
        self.failed == 0
    }
}

/// Some entity is not dealt with.
pub open spec fn any_unresolved(all: Seq<KeyedEntity>) -> bool {
    exists|i: int| 0 <= i < all.len() && is_unresolved(#[trigger] all[i])
}

proof fn lemma_unresolved_are_counted(all: Seq<KeyedEntity>)
    ensures
        (keyed_count(all, |e: KeyedEntity| is_unresolved(e)) == 0) == !any_unresolved(all),
    decreases all.len(),
{
    if all.len() > 0 {
        let init = all.drop_last();
        lemma_unresolved_are_counted(init);
        if any_unresolved(init) {
            let i = choose|i: int| 0 <= i < init.len() && is_unresolved(#[trigger] init[i]);
            assert(is_unresolved(all[i]));
        }
        if is_unresolved(all.last()) {
            assert(is_unresolved(all[all.len() - 1]));
        }
        if any_unresolved(all) && !is_unresolved(all.last()) {
            let i = choose|i: int| 0 <= i < all.len() && is_unresolved(#[trigger] all[i]);
            assert(is_unresolved(init[i]));
        }
    }
}

// ---------------------------------------------------------------------------
// The backfill of one type
// ---------------------------------------------------------------------------

/// How the backfill of a type ended.
#[derive(Clone, Copy, PartialEq, Eq, Structural, Debug)]
pub enum KeyStop {
    /// Its watermark covers the declared keys.
    UpToDate,
    /// Its entities could not be listed.
    NotListed,
    /// Some entity is not dealt with: the type gets no watermark.
    Incomplete,
    /// Every entity is dealt with: the type gets its watermark.
    Complete,
}

/// What the backfill of a type does next.
#[derive(Clone, Copy, PartialEq, Eq, Structural, Debug)]
pub enum KeyPhase {
    /// List the entities of the type.
    List,
    /// List those of them that are keyed.
    Membership,
    /// Load the next entity.
    Entity,
    /// Write the rows of the next entity.
    Write,
    /// Nothing but the watermark, where it is complete.
    Over(KeyStop),
}

/// The backfill of one type under way.
pub struct KeyRun {
    pub key_set: String,
    pub full_rekey: bool,
    pub phase: KeyPhase,
    pub ids: Vec<String>,
    pub membership: KeyedMembership,
    pub counts: KeyBackfillCounts,
    /// What was decided for the next entity, where its rows are to be written.
    pub decided: Option<KeyEntityStep>,
    /// How the next entity was loaded, where its rows are to be written.
    pub loaded: Ghost<(EntityLoadOutcome, Seq<ResolvedKey>)>,
    /// The entities that are done.
    pub done: Ghost<Seq<KeyedEntity>>,
}

impl KeyRun {
    pub open spec fn wf(&self) -> bool {
        &&& self.membership.already_keyed.wf()
        &&& self.full_rekey ==> self.knows_nothing()
        &&& self.counts.counts(self.done@)
        &&& forall|i: int|
            0 <= i < self.done@.len() ==> (#[trigger] self.done@[i]).id == self.ids@[i]@
                && self.is_right_for(
                i,
                self.done@[i].step,
                self.done@[i].outcome,
                self.done@[i].keys,
            )
        &&& self.decided is Some == (self.phase == KeyPhase::Write)
        &&& match self.phase {
            KeyPhase::List => self.ids@.len() == 0 && self.done@.len() == 0,
            KeyPhase::Membership => self.done@.len() == 0 && !self.full_rekey,
            KeyPhase::Entity => self.done@.len() < self.ids@.len(),
            KeyPhase::Write => self.done@.len() < self.ids@.len() && self.decided->0 is Write
                && self.is_right_for(
                self.done@.len() as int,
                self.decided->0,
                self.loaded@.0,
                self.loaded@.1,
            ),
            KeyPhase::Over(KeyStop::Complete) => self.done@.len() == self.ids@.len()
                && !any_unresolved(self.done@),
            KeyPhase::Over(KeyStop::Incomplete) => self.done@.len() == self.ids@.len()
                && any_unresolved(self.done@),
            KeyPhase::Over(_) => self.ids@.len() == 0 && self.done@.len() == 0,
        }
    }

    /// The step is right for the entity at place `i`, as it was loaded.
    pub open spec fn is_right_for(
        self,
        i: int,
        step: KeyEntityStep,
        outcome: EntityLoadOutcome,
        keys: Seq<ResolvedKey>,
    ) -> bool {
        step_says(
            step,
            outcome,
            keys,
            self.membership.already_keyed@.contains(self.ids@[i]@),
            self.membership.known,
        )
    }

    /// The backfill once the next entity is done: at the entity after it, or at its
    /// end, which is complete unless some entity is not dealt with.
    pub open spec fn is_after(self, before: KeyRun, e: KeyedEntity) -> bool {
        &&& self.done@ == before.done@.push(e)
        &&& self == KeyRun {
            counts: self.counts,
            done: self.done,
            decided: None,
            loaded: self.loaded,
            phase: if self.done@.len() < before.ids@.len() {
                KeyPhase::Entity
            } else if any_unresolved(self.done@) {
                KeyPhase::Over(KeyStop::Incomplete)
            } else {
                KeyPhase::Over(KeyStop::Complete)
            },
            ..before
        }
    }

    /// Where a backfill stands once it knows what is keyed: at its first entity,
    /// or at its end where there is none.
    pub open spec fn first_phase(self) -> KeyPhase {
        if self.ids@.len() == 0 {
            KeyPhase::Over(KeyStop::Complete)
        } else {
            KeyPhase::Entity
        }
    }

    /// Nothing is known of what is keyed.
    pub open spec fn knows_nothing(self) -> bool {
        !self.membership.known && self.membership.already_keyed@ == Set::<Seq<char>>::empty()
    }

    /// Begins the backfill of a type, whose watermark covers `covered`.
    pub fn new(covered: Option<&str>, key_set: &str) -> (r: KeyRun)
        ensures
            r.wf(),
            r.key_set@ == key_set@,
            r.knows_nothing(),
            r.full_rekey == (covered is Some && covered->0@ != key_set@),
            r.phase == (if covered is Some && covered->0@ == key_set@ {
                KeyPhase::Over(KeyStop::UpToDate)
            } else {
                KeyPhase::List
            }),
    {
        let (phase, full_rekey): (KeyPhase, bool) = match plan_key_backfill(covered, key_set) {
            KeyTypePlan::UpToDate => (KeyPhase::Over(KeyStop::UpToDate), false),
            KeyTypePlan::FullRekey => (KeyPhase::List, true),
            KeyTypePlan::FirstTime => (KeyPhase::List, false),
        };
        KeyRun {
            key_set: key_set.to_owned(),
            full_rekey,
            phase,
            ids: Vec::new(),
            membership: KeyedMembership { already_keyed: SortedSet::new(), known: false },
            counts: KeyBackfillCounts::new(),
            decided: None,
            loaded: Ghost((EntityLoadOutcome::LoadFailed, Seq::empty())),
            done: Ghost(Seq::empty()),
        }
    }

    /// The entities of the type were listed, or they could not be. A backfill
    /// that keys every entity anew does not ask what is keyed.
    pub fn on_listing(&mut self, ids: Option<Vec<String>>)
        requires
            old(self).wf(),
            old(self).phase == KeyPhase::List,
        ensures
            final(self).wf(),
            *final(self) == (match ids {
                None => KeyRun { phase: KeyPhase::Over(KeyStop::NotListed), ..*old(self) },
                Some(ids) => {
                    let listed = KeyRun { ids, ..*old(self) };
                    KeyRun {
                        phase: if old(self).full_rekey {
                            listed.first_phase()
                        } else {
                            KeyPhase::Membership
                        },
                        ..listed
                    }
                },
            }),
    {
        match ids {
            None => {
                self.phase = KeyPhase::Over(KeyStop::NotListed);
            },
            Some(ids) => {
                self.phase = if !self.full_rekey {
                    KeyPhase::Membership
                } else if ids.len() == 0 {
                    KeyPhase::Over(KeyStop::Complete)
                } else {
                    KeyPhase::Entity
                };
                self.ids = ids;
            },
        }
    }

    /// The keyed entities were listed, or they could not be: then nothing is
    /// known of them, and every entity is gone through in full.
    pub fn on_membership(&mut self, keyed: Option<Vec<String>>)
        requires
            old(self).wf(),
            old(self).phase == KeyPhase::Membership,
        ensures
            final(self).wf(),
            *final(self) == (KeyRun {
                membership: final(self).membership,
                phase: old(self).first_phase(),
                ..*old(self)
            }),
            match keyed {
                Some(ids) => final(self).membership.known
                    && final(self).membership.already_keyed@ == texts(ids@).to_set(),
                None => final(self).knows_nothing(),
            },
    {
        self.membership = keyed_membership(KeyTypePlan::FirstTime, keyed);
        self.phase = if self.ids.len() == 0 {
            KeyPhase::Over(KeyStop::Complete)
        } else {
            KeyPhase::Entity
        };
    }

    fn done_so_far(&self) -> (r: usize)
        requires
            self.wf(),
        ensures
            r == self.done@.len(),
    {
        let total: usize = self.ids.len();
        assert(self.done@.len() <= total);
        self.counts.newly_keyed + self.counts.healed + self.counts.already + self.counts.skipped
            + self.counts.failed
    }

    /// The entity that is to be loaded, or whose rows are to be written: the first
    /// listed one that is not done.
    pub fn next(&self) -> (r: &String)
        requires
            self.wf(),
            self.phase == KeyPhase::Entity || self.phase == KeyPhase::Write,
        ensures
            *r == self.ids@[self.done@.len() as int],
    {
        &self.ids[self.done_so_far()]
    }

    fn settle(
        &mut self,
        step: &KeyEntityStep,
        written: bool,
        loaded: Ghost<(EntityLoadOutcome, Seq<ResolvedKey>)>,
    )
        requires
            old(self).wf(),
            old(self).phase == KeyPhase::Entity || old(self).phase == KeyPhase::Write,
            old(self).is_right_for(
                old(self).done@.len() as int,
                *step,
                loaded@.0,
                loaded@.1,
            ),
        ensures
            final(self).wf(),
            final(self).is_after(
                *old(self),
                KeyedEntity {
                    id: old(self).ids@[old(self).done@.len() as int]@,
                    outcome: loaded@.0,
                    keys: loaded@.1,
                    step: *step,
                    written,
                },
            ),
    {
        let total: usize = self.ids.len();
        self.counts.record(step, written);
        self.decided = None;
        proof {
            let e = KeyedEntity {
                id: self.ids@[self.done@.len() as int]@,
                outcome: loaded@.0,
                keys: loaded@.1,
                step: *step,
                written,
            };
            assert(self.counts.counts(self.done@.push(e)));
            self.done@ = self.done@.push(e);
            lemma_unresolved_are_counted(self.done@);
        }
        let so_far: usize = self.counts.newly_keyed + self.counts.healed + self.counts.already
            + self.counts.skipped + self.counts.failed;
        self.phase = if so_far < total {
            KeyPhase::Entity
        } else if self.counts.may_watermark() {
            KeyPhase::Over(KeyStop::Complete)
        } else {
            KeyPhase::Over(KeyStop::Incomplete)
        };
    }

    /// The next entity was loaded like this, and its keys have these values. Where
    /// rows are to be written for it, they are written next; else it is done.
    pub fn on_load(&mut self, outcome: &EntityLoadOutcome, keys: &Vec<ResolvedKey>)
        requires
            old(self).wf(),
            old(self).phase == KeyPhase::Entity,
        ensures
            final(self).wf(),
            match final(self).decided {
                Some(step) => {
                    &&& step is Write
                    &&& old(self).is_right_for(old(self).done@.len() as int, step, *outcome, keys@)
                    &&& *final(self) == (KeyRun {
                        phase: KeyPhase::Write,
                        decided: final(self).decided,
                        loaded: final(self).loaded,
                        ..*old(self)
                    })
                    &&& final(self).loaded@ == (*outcome, keys@)
                },
                None => {
                    let e = final(self).done@.last();
                    &&& !(e.step is Write)
                    &&& !e.written
                    &&& e.id == old(self).ids@[old(self).done@.len() as int]@
                    &&& e.outcome == *outcome
                    &&& e.keys == keys@
                    &&& final(self).is_after(*old(self), e)
                },
            },
    {
        let was_keyed: bool = self.membership.already_keyed.contains(self.next());
        let step = key_entity_step(outcome, keys, was_keyed, self.membership.known);
        let write: bool = match &step {
            KeyEntityStep::Write { .. } => true,
            _ => false,
        };
        if write {
            self.decided = Some(step);
            self.loaded = Ghost((*outcome, keys@));
            self.phase = KeyPhase::Write;
        } else {
            self.settle(&step, false, Ghost((*outcome, keys@)));
        }
    }

    /// The rows that are to be written for the next entity.
    pub fn rows(&self) -> (r: Option<&Vec<EntityKeyRow>>)
        requires
            self.wf(),
        ensures
            r is Some == (self.phase == KeyPhase::Write),
            r matches Some(rows) ==> *rows == self.decided->0->rows && row_views(rows@) == if
                self.loaded@.0 is Deleted {
                releases(self.loaded@.1)
            } else {
                claims(self.loaded@.1)
            },
    {
        match self.decided.as_ref() {
            Some(KeyEntityStep::Write { rows, .. }) => Some(rows),
            _ => None,
        }
    }

    /// The rows of the next entity were written, or they were not: it is done.
    pub fn on_written(&mut self, written: bool)
        requires
            old(self).wf(),
            old(self).phase == KeyPhase::Write,
        ensures
            final(self).wf(),
            final(self).is_after(
                *old(self),
                KeyedEntity {
                    id: old(self).ids@[old(self).done@.len() as int]@,
                    outcome: old(self).loaded@.0,
                    keys: old(self).loaded@.1,
                    step: old(self).decided->0,
                    written,
                },
            ),
    {
        if let Some(step) = self.decided.take() {
            self.phase = KeyPhase::Entity;
            let loaded = Ghost(self.loaded@);
            self.settle(&step, written, loaded);
        }
    }
}

/// Once a type is complete, a keyed reader finds every living entity that was listed:
/// each key of it that has a value was written in this run, or the entity was in the
/// index before. A run that keys everything anew takes nothing as being there before.
pub proof fn law_complete_types_answer_for_every_key(run: KeyRun, i: int, k: int)
    requires
        run.wf(),
        run.phase == KeyPhase::Over(KeyStop::Complete),
        0 <= i < run.ids@.len(),
        is_living(run.done@[i].outcome),
        0 <= k < run.done@[i].keys.len(),
        run.done@[i].keys[k].key_hash is Some,
    ensures
        ({
            let e = run.done@[i];
            let key = e.keys[k];
            let written = e.written && writes_row(e.step, key.key_name@, key.key_hash->0@);
            &&& e.id == run.ids@[i]@
            &&& written || run.membership.already_keyed@.contains(run.ids@[i]@)
            &&& run.full_rekey ==> written
        }),
{
    law_complete_types_have_every_entity_keyed(run, i);
    let e = run.done@[i];
    law_every_key_with_a_value_is_claimed(
        e.step,
        e.outcome,
        e.keys,
        run.membership.already_keyed@.contains(run.ids@[i]@),
        run.membership.known,
        k,
    );
}

/// A type is complete only once each listed entity was dealt with, and in the right
/// way: what was done is right for that entity as it was loaded, it was loaded or
/// found to be missing, and its rows were written where it has any.
pub proof fn law_complete_types_have_every_entity_keyed(run: KeyRun, i: int)
    requires
        run.wf(),
        run.phase == KeyPhase::Over(KeyStop::Complete),
        0 <= i < run.ids@.len(),
    ensures
        i < run.done@.len(),
        ({
            let e = run.done@[i];
            &&& e.id == run.ids@[i]@
            &&& run.is_right_for(i, e.step, e.outcome, e.keys)
            &&& !(e.outcome is LoadFailed)
            &&& e.step is Write ==> e.written
        }),
{
    let e = run.done@[i];
    assert(!is_unresolved(e));
}

// ---------------------------------------------------------------------------
// Coverage for an activation
// ---------------------------------------------------------------------------

/// A replayed contract whose coverage can be published.
pub struct PreparedKeyIndexCoverage {
    pub entity_type: String,
    pub key_set: String,
    pub revision: u64,
    pub total: usize,
    pub newly_keyed: usize,
    pub skipped: usize,
}

/// A type whose coverage is to be prepared, with the key set that it declares.
pub struct CandidateType {
    pub entity_type: String,
    pub key_set: String,
    /// The epoch at which its key contract was activated: writers of an older one
    /// are kept out.
    pub activation_epoch: u64,
}

/// The revision of a type, as it was read before the watermarks were.
pub struct TypeRevision {
    pub entity_type: String,
    pub revision: u64,
}

/// The key set that a type's watermark covers: the last one listed.
pub open spec fn latest_key_set(types: Seq<CoveredType>, entity_type: Seq<char>) -> Option<
    Seq<char>,
>
    decreases types.len(),
{
    if types.len() == 0 {
        None
    } else if types.last().entity_type@ == entity_type {
        Some(types.last().key_set@)
    } else {
        latest_key_set(types.drop_last(), entity_type)
    }
}

/// The revision of a type: the last one read.
pub open spec fn latest_revision(revisions: Seq<TypeRevision>, entity_type: Seq<char>) -> Option<
    u64,
>
    decreases revisions.len(),
{
    if revisions.len() == 0 {
        None
    } else if revisions.last().entity_type@ == entity_type {
        Some(revisions.last().revision)
    } else {
        latest_revision(revisions.drop_last(), entity_type)
    }
}

/// The revision at which a retained watermark still stands for a type: known
/// only where the watermark covers the current keys.
pub open spec fn retained(
    candidate: CandidateType,
    revisions: Seq<TypeRevision>,
    watermarks: Seq<CoveredType>,
) -> Option<u64> {
    if latest_key_set(watermarks, candidate.entity_type@) == Some(candidate.key_set@) {
        latest_revision(revisions, candidate.entity_type@)
    } else {
        None
    }
}

fn covers_candidate(watermarks: &Vec<CoveredType>, candidate: &CandidateType) -> (r: bool)
    ensures
        r == (latest_key_set(watermarks@, candidate.entity_type@) == Some(candidate.key_set@)),
{
    let mut i: usize = watermarks.len();
    assert(watermarks@.take(i as int) =~= watermarks@);
    while i > 0
        invariant
            i <= watermarks@.len(),
            latest_key_set(watermarks@, candidate.entity_type@) == latest_key_set(
                watermarks@.take(i as int),
                candidate.entity_type@,
            ),
        decreases i,
    {
        assert(watermarks@.take(i as int).last() == watermarks@[i - 1]);
        assert(watermarks@.take(i as int).drop_last() =~= watermarks@.take(i - 1));
        i -= 1;
        if same_text(watermarks[i].entity_type.as_str(), candidate.entity_type.as_str()) {
            return same_text(watermarks[i].key_set.as_str(), candidate.key_set.as_str());
        }
    }
    false
}

fn find_revision(revisions: &Vec<TypeRevision>, entity_type: &str) -> (r: Option<u64>)
    ensures
        r == latest_revision(revisions@, entity_type@),
{
    let mut i: usize = revisions.len();
    assert(revisions@.take(i as int) =~= revisions@);
    while i > 0
        invariant
            i <= revisions@.len(),
            latest_revision(revisions@, entity_type@) == latest_revision(
                revisions@.take(i as int),
                entity_type@,
            ),
        decreases i,
    {
        assert(revisions@.take(i as int).last() == revisions@[i - 1]);
        assert(revisions@.take(i as int).drop_last() =~= revisions@.take(i - 1));
        i -= 1;
        if same_text(revisions[i].entity_type.as_str(), entity_type) {
            return Some(revisions[i].revision);
        }
    }
    None
}

/// For each type in turn, the revision at which it need not be replayed; `None`
/// where it must be. Nothing is reused where coverage may not be, and without an
/// index that speaks for the store there is nothing to prepare.
pub fn prepare_key_index_coverage(
    authoritative_index: bool,
    candidates: &Vec<CandidateType>,
    reuse_durable_coverage: bool,
    revisions: &Vec<TypeRevision>,
    watermarks: &Vec<CoveredType>,
) -> (r: Vec<Option<u64>>)
    ensures
        !authoritative_index ==> r@.len() == 0,
        authoritative_index ==> r@.len() == candidates@.len() && forall|i: int|
            0 <= i < candidates@.len() ==> #[trigger] r@[i] == if reuse_durable_coverage {
                retained(candidates@[i], revisions@, watermarks@)
            } else {
                None
            },
{
    let mut plan: Vec<Option<u64>> = Vec::new();
    if !authoritative_index {
        return plan;
    }
    let mut i: usize = 0;
    while i < candidates.len()
        invariant
            i <= candidates@.len(),
            plan@.len() == i,
            forall|k: int|
                0 <= k < i ==> #[trigger] plan@[k] == if reuse_durable_coverage {
                    retained(candidates@[k], revisions@, watermarks@)
                } else {
                    None
                },
        decreases candidates@.len() - i,
    {
        let candidate: &CandidateType = &candidates[i];
        if reuse_durable_coverage && covers_candidate(watermarks, candidate) {
            plan.push(find_revision(revisions, candidate.entity_type.as_str()));
        } else {
            plan.push(None);
        }
        i += 1;
    }
    plan
}

/// A type is reused only at a revision that was read for it, and only where its
/// watermark covers the keys that it declares now.
pub proof fn law_reused_coverage_is_current(
    candidate: CandidateType,
    revisions: Seq<TypeRevision>,
    watermarks: Seq<CoveredType>,
)
    requires
        retained(candidate, revisions, watermarks) is Some,
    ensures
        exists|i: int|
            0 <= i < watermarks.len() && (#[trigger] watermarks[i]).entity_type@
                == candidate.entity_type@ && watermarks[i].key_set@ == candidate.key_set@,
        exists|i: int|
            0 <= i < revisions.len() && (#[trigger] revisions[i]).entity_type@
                == candidate.entity_type@ && Some(revisions[i].revision) == retained(
                candidate,
                revisions,
                watermarks,
            ),
{
    lemma_latest_key_set_is_listed(watermarks, candidate.entity_type@);
    lemma_latest_revision_is_listed(revisions, candidate.entity_type@);
}

proof fn lemma_latest_key_set_is_listed(types: Seq<CoveredType>, entity_type: Seq<char>)
    requires
        latest_key_set(types, entity_type) is Some,
    ensures
        exists|i: int|
            0 <= i < types.len() && (#[trigger] types[i]).entity_type@ == entity_type && Some(
                types[i].key_set@,
            ) == latest_key_set(types, entity_type),
    decreases types.len(),
{
    let last = types.len() - 1;
    if types.last().entity_type@ == entity_type {
        assert(types[last].entity_type@ == entity_type);
    } else {
        let rest = types.drop_last();
        lemma_latest_key_set_is_listed(rest, entity_type);
        let i = choose|i: int|
            0 <= i < rest.len() && (#[trigger] rest[i]).entity_type@ == entity_type && Some(
                rest[i].key_set@,
            ) == latest_key_set(rest, entity_type);
        assert(types[i] == rest[i]);
    }
}

proof fn lemma_latest_revision_is_listed(revisions: Seq<TypeRevision>, entity_type: Seq<char>)
    requires
        latest_revision(revisions, entity_type) is Some,
    ensures
        exists|i: int|
            0 <= i < revisions.len() && (#[trigger] revisions[i]).entity_type@ == entity_type
                && Some(revisions[i].revision) == latest_revision(revisions, entity_type),
    decreases revisions.len(),
{
    let last = revisions.len() - 1;
    if revisions.last().entity_type@ == entity_type {
        assert(revisions[last].entity_type@ == entity_type);
    } else {
        let rest = revisions.drop_last();
        lemma_latest_revision_is_listed(rest, entity_type);
        let i = choose|i: int|
            0 <= i < rest.len() && (#[trigger] rest[i]).entity_type@ == entity_type && Some(
                rest[i].revision,
            ) == latest_revision(rest, entity_type);
        assert(revisions[i] == rest[i]);
    }
}

/// What is said when coverage cannot be published.
pub open spec fn publish_failure_text(
    tenant: Seq<char>,
    entity_type: Seq<char>,
    published: Result<bool, String>,
) -> Seq<char> {
    match published {
        Ok(_) => "key contract changed after candidate repair for "@ + tenant + ":"@ + entity_type,
        Err(error) => "failed to publish key coverage for "@ + tenant + ":"@ + entity_type + ": "@
            + error@,
    }
}

/// Settles the publication of one contract's coverage. A lost race is an error,
/// so that no writer of the new contract enters on stale rows.
pub fn settle_publication(
    tenant: &str,
    entity_type: &str,
    published: Result<bool, String>,
) -> (r: Result<(), String>)
    ensures
        r is Ok == (published matches Ok(p) && p),
        r matches Err(e) ==> e@ == publish_failure_text(tenant@, entity_type@, published),
{
    match published {
        Ok(p) => {
            if p {
                Ok(())
            } else {
                let mut text = "key contract changed after candidate repair for ".to_owned();
                text.append(tenant);
                text.append(":");
                text.append(entity_type);
                Err(text)
            }
        },
        Err(error) => {
            let mut text = "failed to publish key coverage for ".to_owned();
            text.append(tenant);
            text.append(":");
            text.append(entity_type);
            text.append(": ");
            text.append(error.as_str());
            Err(text)
        },
    }
}

/// An entity for which nothing changes costs no write: one whose keys all have values
/// and that is in the index, one that has no value for any key and is known not to be
/// there, and one whose fields are no object.
pub proof fn law_settled_entities_cost_no_write(
    step: KeyEntityStep,
    outcome: EntityLoadOutcome,
    keys: Seq<ResolvedKey>,
    was_already_keyed: bool,
    membership_known: bool,
)
    requires
        step_says(step, outcome, keys, was_already_keyed, membership_known),
    ensures
        is_living(outcome) && was_already_keyed && (forall|i: int|
            0 <= i < keys.len() ==> (#[trigger] keys[i]).key_hash is Some) ==> step is Already,
        is_living(outcome) && !was_already_keyed && membership_known && (forall|i: int|
            0 <= i < keys.len() ==> (#[trigger] keys[i]).key_hash is None) ==> step is Skip,
        outcome is Fields && !is_living(outcome) ==> step is Skip,
        outcome is Missing ==> step is Skip,
        step is Already ==> was_already_keyed && is_living(outcome),
{
}

proof fn lemma_keyed_count_is_a_number_of_places(
    all: Seq<KeyedEntity>,
    p: spec_fn(KeyedEntity) -> bool,
    q: spec_fn(KeyedEntity) -> bool,
)
    requires
        forall|e: KeyedEntity| #[trigger] p(e) == q(e),
    ensures
        keyed_count(all, p) == all.filter(q).len(),
    decreases all.len(),
{
    reveal(Seq::filter);
    if all.len() > 0 {
        lemma_keyed_count_is_a_number_of_places(all.drop_last(), p, q);
        assert(p(all.last()) == q(all.last()));
    }
}

/// The counts tell the entities apart by what was decided and by what the store took:
/// newly keyed and healed ones were written, with a hash or without one; those in the
/// index and those passed by were not; and the rest failed.
pub proof fn law_key_counts_are_those_of_the_entities(
    counts: KeyBackfillCounts,
    all: Seq<KeyedEntity>,
)
    requires
        counts.counts(all),
    ensures
        counts.newly_keyed == all.filter(
            |e: KeyedEntity| e.step is Write && e.step->claim && e.written,
        ).len(),
        counts.healed == all.filter(
            |e: KeyedEntity| e.step is Write && !e.step->claim && e.written,
        ).len(),
        counts.already == all.filter(|e: KeyedEntity| e.step is Already).len(),
        counts.skipped == all.filter(|e: KeyedEntity| e.step is Skip).len(),
        counts.failed == all.filter(
            |e: KeyedEntity| e.step is Fail || (e.step is Write && !e.written),
        ).len(),
{
    lemma_keyed_count_is_a_number_of_places(
        all,
        |e: KeyedEntity| is_newly_keyed(e),
        |e: KeyedEntity| e.step is Write && e.step->claim && e.written,
    );
    lemma_keyed_count_is_a_number_of_places(
        all,
        |e: KeyedEntity| is_healed(e),
        |e: KeyedEntity| e.step is Write && !e.step->claim && e.written,
    );
    lemma_keyed_count_is_a_number_of_places(
        all,
        |e: KeyedEntity| e.step is Already,
        |e: KeyedEntity| e.step is Already,
    );
    lemma_keyed_count_is_a_number_of_places(
        all,
        |e: KeyedEntity| e.step is Skip,
        |e: KeyedEntity| e.step is Skip,
    );
    lemma_keyed_count_is_a_number_of_places(
        all,
        |e: KeyedEntity| is_unresolved(e),
        |e: KeyedEntity| e.step is Fail || (e.step is Write && !e.written),
    );
}

/// Of two watermarks for a type the later one counts, and so does the later of two
/// revisions; a type that has both, with the keys that it declares, is not replayed.
pub proof fn law_the_last_watermark_counts(
    candidate: CandidateType,
    revisions: Seq<TypeRevision>,
    watermarks: Seq<CoveredType>,
    i: int,
    k: int,
)
    requires
        0 <= i < watermarks.len(),
        watermarks[i].entity_type@ == candidate.entity_type@,
        forall|j: int|
            i < j < watermarks.len() ==> (#[trigger] watermarks[j]).entity_type@
                != candidate.entity_type@,
        0 <= k < revisions.len(),
        revisions[k].entity_type@ == candidate.entity_type@,
        forall|j: int|
            k < j < revisions.len() ==> (#[trigger] revisions[j]).entity_type@
                != candidate.entity_type@,
    ensures
        retained(candidate, revisions, watermarks) == if watermarks[i].key_set@
            == candidate.key_set@ {
            Some(revisions[k].revision)
        } else {
            None
        },
{
    lemma_last_key_set(watermarks, candidate.entity_type@, i);
    lemma_last_revision(revisions, candidate.entity_type@, k);
}

proof fn lemma_last_key_set(types: Seq<CoveredType>, entity_type: Seq<char>, i: int)
    requires
        0 <= i < types.len(),
        types[i].entity_type@ == entity_type,
        forall|j: int|
            i < j < types.len() ==> (#[trigger] types[j]).entity_type@ != entity_type,
    ensures
        latest_key_set(types, entity_type) == Some(types[i].key_set@),
    decreases types.len(),
{
    if i < types.len() - 1 {
        let before = types.drop_last();
        assert(types[types.len() - 1].entity_type@ != entity_type);
        assert forall|j: int| i < j < before.len() implies (#[trigger] before[j]).entity_type@
            != entity_type by {
            assert(before[j] == types[j]);
        }
        lemma_last_key_set(before, entity_type, i);
    }
}

proof fn lemma_last_revision(revisions: Seq<TypeRevision>, entity_type: Seq<char>, i: int)
    requires
        0 <= i < revisions.len(),
        revisions[i].entity_type@ == entity_type,
        forall|j: int|
            i < j < revisions.len() ==> (#[trigger] revisions[j]).entity_type@ != entity_type,
    ensures
        latest_revision(revisions, entity_type) == Some(revisions[i].revision),
    decreases revisions.len(),
{
    if i < revisions.len() - 1 {
        let before = revisions.drop_last();
        assert(revisions[revisions.len() - 1].entity_type@ != entity_type);
        assert forall|j: int| i < j < before.len() implies (#[trigger] before[j]).entity_type@
            != entity_type by {
            assert(before[j] == revisions[j]);
        }
        lemma_last_revision(before, entity_type, i);
    }
}

} // verus!
