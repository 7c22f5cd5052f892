//! Counters for observers.

use vstd::prelude::*;
use vstd::string::*;

use crate::sorted::SortedMap;
use crate::text::decimal;
use crate::text::decimal_text;
use crate::text::lemma_first_piece;
use crate::text::pieces;

verus! {

/// Counters by label, and totals that start over when they are full.
pub struct MetricsCollector {
    /// Transitions by `{entity_type}:{action}:true|false`.
    pub transitions: SortedMap<String, u64>,
    /// Transitions, successful or not.
    pub transitions_total: u64,
    /// Transitions that failed.
    pub errors_total: u64,
    /// Cross-invariant checks by `{tenant}:{entity_type}:{result}`.
    pub cross_invariant_checks: SortedMap<String, u64>,
    /// Cross-invariant violations by `{tenant}:{invariant}:{kind}`.
    pub cross_invariant_violations: SortedMap<String, u64>,
    /// Relation violations by `{tenant}:{entity_type}:{operation}`.
    pub relation_integrity_violations: SortedMap<String, u64>,
    /// Cross-invariant evaluations by the upper bound of their duration, in
    /// milliseconds.
    pub cross_invariant_eval_duration_ms_bucket: SortedMap<String, u64>,
    /// How often enforcement was bypassed.
    pub cross_invariant_bypass_total: u64,
}

/// A label of three parts.
pub open spec fn label(a: Seq<char>, b: Seq<char>, c: Seq<char>) -> Seq<char> {
    a + ":"@ + b + ":"@ + c
}

fn label_text(a: &str, b: &str, c: &str) -> (r: String)
    ensures
        r@ == label(a@, b@, c@),
{
    let mut text = a.to_owned();
    text.append(":");
    text.append(b);
    text.append(":");
    text.append(c);
    text
}

/// How often a label was counted.
pub open spec fn counted(map: Map<Seq<char>, u64>, name: Seq<char>) -> u64 {
    if map.dom().contains(name) {
        map[name]
    } else {
        0
    }
}

/// The counters with one more for a label.
pub open spec fn bumped(map: Map<Seq<char>, u64>, name: Seq<char>) -> Map<Seq<char>, u64> {
    map.insert(name, (counted(map, name) + 1) as u64)
}

fn bump(map: &mut SortedMap<String, u64>, name: String)
    requires
        old(map).wf(),
        counted(old(map)@, name@) < u64::MAX,
    ensures
        final(map).wf(),
        final(map)@ == bumped(old(map)@, name@),
{
    let count: u64 = match map.get(&name) {
        Some(n) => *n,
        None => 0,
    };
    let _ = map.insert(name, count + 1);
}

/// One more, or zero after the largest value.
pub open spec fn next_total(total: u64) -> int {
    if total < u64::MAX {
        total + 1
    } else {
        0
    }
}

fn next(total: u64) -> (r: u64)
    ensures
        r == next_total(total),
{
    if total < u64::MAX {
        total + 1
    } else {
        0
    }
}

/// The label of a transition.
pub open spec fn transition_label(
    entity_type: Seq<char>,
    action: Seq<char>,
    success: bool,
) -> Seq<char> {
    label(
        entity_type,
        action,
        if success {
            "true"@
        } else {
            "false"@
        },
    )
}

/// What was counted of transitions: by label, and in all.
#[verifier::ext_equal]
pub struct TransitionCounts {
    pub by_label: Map<Seq<char>, u64>,
    pub total: u64,
    pub errors: u64,
}

/// The counts with one transition more.
pub open spec fn with_transition(
    counts: TransitionCounts,
    entity_type: Seq<char>,
    action: Seq<char>,
    success: bool,
) -> TransitionCounts {
    TransitionCounts {
        by_label: bumped(counts.by_label, transition_label(entity_type, action, success)),
        total: next_total(counts.total) as u64,
        errors: if success {
            counts.errors
        } else {
            next_total(counts.errors) as u64
        },
    }
}

/// A transition, as it is recorded.
pub struct Transition {
    pub entity_type: Seq<char>,
    pub action: Seq<char>,
    pub success: bool,
}

/// The counts once these transitions were recorded.
pub open spec fn counts_after(transitions: Seq<Transition>) -> TransitionCounts
    decreases transitions.len(),
{
    if transitions.len() == 0 {
        TransitionCounts { by_label: Map::empty(), total: 0, errors: 0 }
    } else {
        let last = transitions.last();
        with_transition(
            counts_after(transitions.drop_last()),
            last.entity_type,
            last.action,
            last.success,
        )
    }
}

/// The upper bounds of the duration buckets, in milliseconds.
pub open spec fn bucket_bounds() -> Seq<u64> {
    seq![1, 2, 5, 10, 20, 50, 100, 250, 500, 1000, 2500, 5000]
}

/// The bucket of a duration: its least upper bound among the bounds.
pub open spec fn bucket_of(duration_ms: u64, from: int) -> Seq<char>
    decreases bucket_bounds().len() - from,
{
    if from < 0 || from >= bucket_bounds().len() {
        "+Inf"@
    } else if duration_ms <= bucket_bounds()[from] {
        decimal(bucket_bounds()[from] as nat)
    } else {
        bucket_of(duration_ms, from + 1)
    }
}

impl MetricsCollector {
    pub open spec fn wf(&self) -> bool {
        &&& self.transitions.wf()
        &&& self.cross_invariant_checks.wf()
        &&& self.cross_invariant_violations.wf()
        &&& self.relation_integrity_violations.wf()
        &&& self.cross_invariant_eval_duration_ms_bucket.wf()
    }

    /// Nothing is counted yet.
    pub open spec fn is_empty(&self) -> bool {
        &&& self.transitions@ == Map::<Seq<char>, u64>::empty()
        &&& self.transitions_total == 0
        &&& self.errors_total == 0
        &&& self.cross_invariant_checks@ == Map::<Seq<char>, u64>::empty()
        &&& self.cross_invariant_violations@ == Map::<Seq<char>, u64>::empty()
        &&& self.relation_integrity_violations@ == Map::<Seq<char>, u64>::empty()
        &&& self.cross_invariant_eval_duration_ms_bucket@ == Map::<Seq<char>, u64>::empty()
        &&& self.cross_invariant_bypass_total == 0
    }

    /// The transitions that were counted.
    pub open spec fn transition_counts(&self) -> TransitionCounts {
        TransitionCounts {
            by_label: self.transitions@,
            total: self.transitions_total,
            errors: self.errors_total,
        }
    }

    /// The collector was told of these transitions, the last one last, and of no
    /// others.
    pub open spec fn has_recorded(&self, transitions: Seq<Transition>) -> bool {
        self.wf() && self.transition_counts() == counts_after(transitions)
    }

    /// A collector that has counted nothing.
    pub fn new() -> (r: MetricsCollector)
        ensures
            r.wf(),
            r.is_empty(),
            r.has_recorded(Seq::empty()),
    {
        MetricsCollector {
            transitions: SortedMap::new(),
            transitions_total: 0,
            errors_total: 0,
            cross_invariant_checks: SortedMap::new(),
            cross_invariant_violations: SortedMap::new(),
            relation_integrity_violations: SortedMap::new(),
            cross_invariant_eval_duration_ms_bucket: SortedMap::new(),
            cross_invariant_bypass_total: 0,
        }
    }

    /// Counts a transition.
    pub fn record_transition(&mut self, entity_type: &str, action: &str, success: bool)
        requires
            old(self).wf(),
            counted(old(self).transitions@, transition_label(entity_type@, action@, success))
                < u64::MAX,
        ensures
            final(self).wf(),
            final(self).transition_counts() == with_transition(
                old(self).transition_counts(),
                entity_type@,
                action@,
                success,
            ),
            *final(self) == (MetricsCollector {
                transitions: final(self).transitions,
                transitions_total: final(self).transitions_total,
                errors_total: final(self).errors_total,
                ..*old(self)
            }),
            ({
                let told = Transition { entity_type: entity_type@, action: action@, success };
                forall|transitions: Seq<Transition>| #[trigger]
                    old(self).has_recorded(transitions) ==> final(self).has_recorded(
                        transitions.push(told),
                    )
            }),
    {
        let outcome: &str = if success {
            "true"
        } else {
            "false"
        };
        bump(&mut self.transitions, label_text(entity_type, action, outcome));
        self.transitions_total = next(self.transitions_total);
        if !success {
            self.errors_total = next(self.errors_total);
        }
        proof {
            let told = Transition { entity_type: entity_type@, action: action@, success };
            assert forall|transitions: Seq<Transition>| #[trigger]
                old(self).has_recorded(transitions) implies self.has_recorded(
                transitions.push(told),
            ) by {
                assert(transitions.push(told).drop_last() =~= transitions);
            }
        }
    }

    /// Counts the outcome of a cross-invariant check.
    pub fn record_cross_invariant_check(&mut self, tenant: &str, entity_type: &str, result: &str)
        requires
            old(self).wf(),
            counted(old(self).cross_invariant_checks@, label(tenant@, entity_type@, result@))
                < u64::MAX,
        ensures
            final(self).wf(),
            final(self).cross_invariant_checks@ == bumped(
                old(self).cross_invariant_checks@,
                label(tenant@, entity_type@, result@),
            ),
            *final(self) == (MetricsCollector {
                cross_invariant_checks: final(self).cross_invariant_checks,
                ..*old(self)
            }),
    {
        bump(&mut self.cross_invariant_checks, label_text(tenant, entity_type, result));
    }

    /// Counts a cross-invariant violation.
    pub fn record_cross_invariant_violation(&mut self, tenant: &str, invariant_name: &str, kind: &str)
        requires
            old(self).wf(),
            counted(old(self).cross_invariant_violations@, label(tenant@, invariant_name@, kind@))
                < u64::MAX,
        ensures
            final(self).wf(),
            final(self).cross_invariant_violations@ == bumped(
                old(self).cross_invariant_violations@,
                label(tenant@, invariant_name@, kind@),
            ),
            *final(self) == (MetricsCollector {
                cross_invariant_violations: final(self).cross_invariant_violations,
                ..*old(self)
            }),
    {
        bump(&mut self.cross_invariant_violations, label_text(tenant, invariant_name, kind));
    }

    /// Counts a relation integrity violation.
    pub fn record_relation_integrity_violation(
        &mut self,
        tenant: &str,
        entity_type: &str,
        operation: &str,
    )
        requires
            old(self).wf(),
            counted(
                old(self).relation_integrity_violations@,
                label(tenant@, entity_type@, operation@),
            ) < u64::MAX,
        ensures
            final(self).wf(),
            final(self).relation_integrity_violations@ == bumped(
                old(self).relation_integrity_violations@,
                label(tenant@, entity_type@, operation@),
            ),
            *final(self) == (MetricsCollector {
                relation_integrity_violations: final(self).relation_integrity_violations,
                ..*old(self)
            }),
    {
        bump(&mut self.relation_integrity_violations, label_text(tenant, entity_type, operation));
    }

    /// Counts how long a cross-invariant evaluation took.
    pub fn record_cross_eval_duration_ms(&mut self, duration_ms: u64)
        requires
            old(self).wf(),
            counted(
                old(self).cross_invariant_eval_duration_ms_bucket@,
                bucket_of(duration_ms, 0),
            ) < u64::MAX,
        ensures
            final(self).wf(),
            final(self).cross_invariant_eval_duration_ms_bucket@ == bumped(
                old(self).cross_invariant_eval_duration_ms_bucket@,
                bucket_of(duration_ms, 0),
            ),
            *final(self) == (MetricsCollector {
                cross_invariant_eval_duration_ms_bucket:
                    final(self).cross_invariant_eval_duration_ms_bucket,
                ..*old(self)
            }),
    {
        let name = duration_bucket(duration_ms);
        bump(&mut self.cross_invariant_eval_duration_ms_bucket, name);
    }

    /// Counts a bypass of enforcement.
    pub fn record_cross_bypass(&mut self)
        ensures
            final(self).cross_invariant_bypass_total == next_total(
                old(self).cross_invariant_bypass_total,
            ),
            *final(self) == (MetricsCollector {
                cross_invariant_bypass_total: final(self).cross_invariant_bypass_total,
                ..*old(self)
            }),
    {
        self.cross_invariant_bypass_total = next(self.cross_invariant_bypass_total);
    }
}

impl Default for MetricsCollector {
    fn default() -> (r: MetricsCollector)
        ensures
            r.wf(),
            r.is_empty(),
            r.has_recorded(Seq::empty()),
    {
        MetricsCollector::new()
    }
}

/// The bucket of a duration.
pub fn duration_bucket(duration_ms: u64) -> (r: String)
    ensures
        r@ == bucket_of(duration_ms, 0),
{
    let bounds: [u64; 12] = [1, 2, 5, 10, 20, 50, 100, 250, 500, 1000, 2500, 5000];
    let mut i: usize = 0;
    while i < 12
        invariant
            i <= 12,
            bounds@ == bucket_bounds(),
            bucket_of(duration_ms, 0) == bucket_of(duration_ms, i as int),
        decreases 12 - i,
    {
        if duration_ms <= bounds[i] {
            return decimal_text(bounds[i]);
        }
        i += 1;
    }
    "+Inf".to_owned()
}

/// Counting under one label leaves all others as they are.
pub proof fn law_counters_are_independent(
    map: Map<Seq<char>, u64>,
    name: Seq<char>,
    other: Seq<char>,
)
    requires
        name != other,
    ensures
        counted(bumped(map, name), other) == counted(map, other),
{
}

// ---------------------------------------------------------------------------
// Totals and labels
// ---------------------------------------------------------------------------

/// The label is one of a failed transition.
pub open spec fn tells_failure(name: Seq<char>) -> bool {
    name.len() >= 6 && name.skip(name.len() - 6) == ":false"@
}

/// The counts of the labels together: of all, or of the failed ones alone.
pub open spec fn sum_of(counts: Map<Seq<char>, u64>, failed_only: bool) -> nat
    decreases counts.dom().len(),
    when counts.dom().finite()
{
    if counts.dom().len() == 0 {
        0
    } else {
        let name = counts.dom().choose();
        sum_of(counts.remove(name), failed_only) + if failed_only && !tells_failure(name) {
            0nat
        } else {
            counts[name] as nat
        }
    }
}

/// A label can be taken out of a sum.
proof fn lemma_sum_takes_out(counts: Map<Seq<char>, u64>, failed_only: bool, name: Seq<char>)
    requires
        counts.dom().finite(),
        counts.dom().contains(name),
    ensures
        sum_of(counts, failed_only) == sum_of(counts.remove(name), failed_only) + if failed_only
            && !tells_failure(name) {
            0nat
        } else {
            counts[name] as nat
        },
    decreases counts.dom().len(),
{
    let first = counts.dom().choose();
    if first != name {
        let without = counts.remove(first);
        lemma_sum_takes_out(without, failed_only, name);
        lemma_sum_takes_out(counts.remove(name), failed_only, first);
        assert(without.remove(name) =~= counts.remove(name).remove(first));
    }
}

/// One more under a label is one more in the sum.
proof fn lemma_bumping_adds_one(counts: Map<Seq<char>, u64>, failed_only: bool, name: Seq<char>)
    requires
        counts.dom().finite(),
        counted(counts, name) < u64::MAX,
    ensures
        bumped(counts, name).dom().finite(),
        sum_of(bumped(counts, name), failed_only) == sum_of(counts, failed_only) + if failed_only
            && !tells_failure(name) {
            0nat
        } else {
            1nat
        },
{
    let after = bumped(counts, name);
    lemma_sum_takes_out(after, failed_only, name);
    if counts.dom().contains(name) {
        lemma_sum_takes_out(counts, failed_only, name);
        assert(after.remove(name) =~= counts.remove(name));
    } else {
        assert(after.remove(name) =~= counts);
    }
}

proof fn lemma_label_tells_outcome(entity_type: Seq<char>, action: Seq<char>, success: bool)
    ensures
        tells_failure(transition_label(entity_type, action, success)) == !success,
{
    reveal_strlit("true");
    reveal_strlit("false");
    reveal_strlit(":");
    reveal_strlit(":false");
    let name = transition_label(entity_type, action, success);
    if success {
        assert(name[name.len() - 5] == ':');
        if name.len() >= 6 {
            assert(name.skip(name.len() - 6)[1] == ':');
        }
    } else {
        assert(name.skip(name.len() - 6) =~= ":false"@);
    }
}

/// The totals after a history of transitions are the sums of its counts.
proof fn lemma_totals_after(transitions: Seq<Transition>)
    requires
        transitions.len() <= u64::MAX,
    ensures
        ({
            let counts = counts_after(transitions);
            &&& counts.by_label.dom().finite()
            &&& counts.total == sum_of(counts.by_label, false)
            &&& counts.errors == sum_of(counts.by_label, true)
            &&& counts.total == transitions.len()
            &&& counts.errors <= counts.total
        }),
    decreases transitions.len(),
{
    if transitions.len() > 0 {
        lemma_totals_after(transitions.drop_last());
        let before = counts_after(transitions.drop_last());
        let last = transitions.last();
        let name = transition_label(last.entity_type, last.action, last.success);
        lemma_label_tells_outcome(last.entity_type, last.action, last.success);
        if before.by_label.dom().contains(name) {
            lemma_sum_takes_out(before.by_label, false, name);
        }
        lemma_bumping_adds_one(before.by_label, false, name);
        lemma_bumping_adds_one(before.by_label, true, name);
    }
}

/// In every state that recording leads to, the totals are the sums of what was
/// counted by label: all transitions, and those of them that failed.
pub proof fn law_totals_are_sums(collector: MetricsCollector, transitions: Seq<Transition>)
    requires
        collector.has_recorded(transitions),
        transitions.len() <= u64::MAX,
    ensures
        collector.transitions_total == sum_of(collector.transitions@, false),
        collector.errors_total == sum_of(collector.transitions@, true),
        collector.transitions_total == transitions.len(),
        collector.errors_total <= collector.transitions_total,
{
    lemma_totals_after(transitions);
}

/// What is counted under a label is one more than before, and a label that was never
/// counted stands at one.
pub proof fn law_counters_count_by_one(map: Map<Seq<char>, u64>, name: Seq<char>)
    requires
        counted(map, name) < u64::MAX,
    ensures
        counted(bumped(map, name), name) == counted(map, name) + 1,
        !map.dom().contains(name) ==> counted(bumped(map, name), name) == 1,
        map.dom().contains(name) ==> bumped(map, name)[name] == map[name] + 1,
        bumped(map, name).dom() == map.dom().insert(name),
{
}

/// A label is its three parts with colons between them.
pub proof fn law_labels_have_three_parts(a: Seq<char>, b: Seq<char>, c: Seq<char>)
    requires
        !a.contains(':'),
        !b.contains(':'),
        !c.contains(':'),
    ensures
        pieces(label(a, b, c), ':') == seq![a, b, c],
{
    reveal_strlit(":");
    let n = seq![':'];
    assert(":"@ =~= n);
    assert(label(a, b, c) =~= a + n + (b + n + c));
    lemma_first_piece(c, Seq::empty(), ':');
    lemma_first_piece(b, c, ':');
    lemma_first_piece(a, b + n + c, ':');
    assert(pieces(label(a, b, c), ':') =~= seq![a, b, c]);
}

/// A transition is counted under its type, its action and how it ended; one that failed
/// counts as an error too, and one that succeeded does not.
pub proof fn law_transitions_are_counted_by_outcome(
    counts: TransitionCounts,
    entity_type: Seq<char>,
    action: Seq<char>,
    success: bool,
)
    requires
        counts.total < u64::MAX,
        counts.errors < u64::MAX,
        !entity_type.contains(':'),
        !action.contains(':'),
    ensures
        pieces(transition_label(entity_type, action, true), ':') == seq![
            entity_type,
            action,
            "true"@,
        ],
        pieces(transition_label(entity_type, action, false), ':') == seq![
            entity_type,
            action,
            "false"@,
        ],
        with_transition(counts, entity_type, action, success).total == counts.total + 1,
        with_transition(counts, entity_type, action, true).errors == counts.errors,
        with_transition(counts, entity_type, action, false).errors == counts.errors + 1,
{
    reveal_strlit("true");
    reveal_strlit("false");
    law_labels_have_three_parts(entity_type, action, "true"@);
    law_labels_have_three_parts(entity_type, action, "false"@);
}

/// A total starts over at zero after its largest value.
pub proof fn law_totals_start_over(total: u64)
    ensures
        total < u64::MAX ==> next_total(total) == total + 1,
        next_total(u64::MAX) == 0,
{
}

/// A duration falls into the bucket of its least upper bound, and past the last bound into
/// the one without a bound.
pub proof fn law_durations_fall_under_their_bound(duration_ms: u64)
    ensures
        duration_ms <= 1 ==> bucket_of(duration_ms, 0) == decimal(1),
        1 < duration_ms <= 2 ==> bucket_of(duration_ms, 0) == decimal(2),
        2 < duration_ms <= 5 ==> bucket_of(duration_ms, 0) == decimal(5),
        5 < duration_ms <= 10 ==> bucket_of(duration_ms, 0) == decimal(10),
        10 < duration_ms <= 20 ==> bucket_of(duration_ms, 0) == decimal(20),
        20 < duration_ms <= 50 ==> bucket_of(duration_ms, 0) == decimal(50),
        50 < duration_ms <= 100 ==> bucket_of(duration_ms, 0) == decimal(100),
        100 < duration_ms <= 250 ==> bucket_of(duration_ms, 0) == decimal(250),
        250 < duration_ms <= 500 ==> bucket_of(duration_ms, 0) == decimal(500),
        500 < duration_ms <= 1000 ==> bucket_of(duration_ms, 0) == decimal(1000),
        1000 < duration_ms <= 2500 ==> bucket_of(duration_ms, 0) == decimal(2500),
        2500 < duration_ms <= 5000 ==> bucket_of(duration_ms, 0) == decimal(5000),
        duration_ms > 5000 ==> bucket_of(duration_ms, 0) == "+Inf"@,
{
    reveal_with_fuel(bucket_of, 13);
}

} // verus!
