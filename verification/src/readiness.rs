//! Waiting for an actor to become ready, and asking across a drain.
//!
//! Both loops alternate between asking an actor and deciding what the answer
//! means. The decisions stand here; whoever runs the loop performs the step.

use vstd::prelude::*;

use crate::directory::is_current;
use crate::directory::ActorDirectory;

verus! {

/// How often an actor that answers but does not serve is looked up again.
pub const READINESS_RETRY_BUDGET: usize = 3;

/// How often a request follows an actor that was drained under it.
pub const DRAIN_RETRY_BUDGET: usize = 3;

/// The longest elapsed time that is told apart, in nanoseconds: the largest
/// number of whole seconds that fits 64 bits, and one nanosecond less than a
/// second.
pub const MAX_ELAPSED_NANOS: u128 = 18_446_744_073_709_551_615_999_999_999;

/// Whether an incarnation is the registered one and still takes requests.
pub fn is_serving(
    directory: &ActorDirectory,
    key: &String,
    uid: u128,
    draining: bool,
    stopped: bool,
) -> (r: bool)
    requires
        directory.wf(),
    ensures
        r == (is_current(directory@, key@, uid) && !draining && !stopped),
{
    match directory.registry.get(key) {
        Some(current) => !draining && !stopped && *current == uid,
        None => false,
    }
}

/// What one look at the actor gave.
#[derive(Clone, Copy, PartialEq, Eq, Structural, Debug)]
pub enum ReadinessProbe {
    /// The actor answered that its entity is deleted.
    Deleted,
    /// The actor answered; `serving` says whether it still is the registered one.
    Answered { serving: bool },
    /// The actor no longer takes requests; `drain_fenced` says whether a drain
    /// is why.
    Rejected { drain_fenced: bool },
    /// Asking failed for another reason.
    Failed,
    /// No actor could be had; `draining` says whether a draining one is
    /// registered.
    Absent { draining: bool },
}

/// What to do next.
#[derive(Clone, Copy, PartialEq, Eq, Structural, Debug)]
pub enum ReadinessStep {
    /// Retire the deleted entity's actor; there is none to hand out.
    Retire,
    /// The actor is ready.
    Ready,
    /// There is no actor to hand out.
    GiveUp { after_drain: bool },
    /// Look again, after the drain where there is one to wait for.
    Again { after_drain: bool },
    /// Let others run, then look again.
    Yield,
}

/// Where a wait for readiness stands.
#[derive(Clone, Copy, PartialEq, Eq, Structural, Debug)]
pub struct Readiness {
    pub retried_absence: bool,
    pub retries: usize,
}

/// Where the wait stands after a probe, and the step that follows.
pub open spec fn readiness_after(at: Readiness, probe: ReadinessProbe) -> (Readiness, ReadinessStep) {
    let used = Readiness {
        retried_absence: false,
        retries: if at.retries < usize::MAX {
            (at.retries + 1) as usize
        } else {
            usize::MAX
        },
    };
    let spent = used.retries >= READINESS_RETRY_BUDGET;
    match probe {
        ReadinessProbe::Deleted => (at, ReadinessStep::Retire),
        ReadinessProbe::Answered { serving: true } => (at, ReadinessStep::Ready),
        ReadinessProbe::Answered { serving: false } => if spent {
            (Readiness { retried_absence: at.retried_absence, ..used }, ReadinessStep::GiveUp {
                after_drain: false,
            })
        } else {
            (used, ReadinessStep::Again { after_drain: false })
        },
        ReadinessProbe::Rejected { drain_fenced } => if spent {
            (Readiness { retried_absence: at.retried_absence, ..used }, ReadinessStep::GiveUp {
                after_drain: drain_fenced,
            })
        } else {
            (used, ReadinessStep::Again { after_drain: drain_fenced })
        },
        ReadinessProbe::Failed => (at, ReadinessStep::GiveUp { after_drain: false }),
        ReadinessProbe::Absent { draining: true } => (
            Readiness { retried_absence: false, ..at },
            ReadinessStep::Again { after_drain: true },
        ),
        ReadinessProbe::Absent { draining: false } => if at.retried_absence {
            (at, ReadinessStep::GiveUp { after_drain: false })
        } else {
            (Readiness { retried_absence: true, ..at }, ReadinessStep::Yield)
        },
    }
}

impl Readiness {
    /// The wait before its first probe.
    pub fn new() -> (r: Readiness)
        ensures
            r == (Readiness { retried_absence: false, retries: 0 }),
    {
        Readiness { retried_absence: false, retries: 0 }
    }

    /// Takes a probe in.
    ///
    /// A missing actor is looked for twice: the owner of a drain may have
    /// removed the entry between the failed lookup and the look at it.
    pub fn on_probe(&mut self, probe: ReadinessProbe) -> (r: ReadinessStep)
        ensures
            (*final(self), r) == readiness_after(*old(self), probe),
    {
        let after_drain: bool = match probe {
            ReadinessProbe::Deleted => {
                return ReadinessStep::Retire;
            },
            ReadinessProbe::Answered { serving } => {
                if serving {
                    return ReadinessStep::Ready;
                }
                false
            },
            ReadinessProbe::Rejected { drain_fenced } => drain_fenced,
            ReadinessProbe::Failed => {
                return ReadinessStep::GiveUp { after_drain: false };
            },
            ReadinessProbe::Absent { draining } => {
                if draining {
                    self.retried_absence = false;
                    return ReadinessStep::Again { after_drain: true };
                }
                if self.retried_absence {
                    return ReadinessStep::GiveUp { after_drain: false };
                }
                self.retried_absence = true;
                return ReadinessStep::Yield;
            },
        };
        self.retries = if self.retries < usize::MAX {
            self.retries + 1
        } else {
            usize::MAX
        };
        if self.retries >= READINESS_RETRY_BUDGET {
            return ReadinessStep::GiveUp { after_drain };
        }
        self.retried_absence = false;
        ReadinessStep::Again { after_drain }
    }
}

/// How many steps a wait has left, apart from waits for a draining actor.
pub open spec fn steps_left(at: Readiness) -> int {
    2 * (READINESS_RETRY_BUDGET - at.retries) + if at.retried_absence {
        0int
    } else {
        1int
    }
}

/// A wait ends: every probe that lets it go on brings it closer to its end,
/// unless a draining actor stood in the way.
pub proof fn law_waiting_for_readiness_ends(at: Readiness, probe: ReadinessProbe)
    requires
        at.retries < READINESS_RETRY_BUDGET,
        probe != (ReadinessProbe::Absent { draining: true }),
    ensures
        ({
            let (next, step) = readiness_after(at, probe);
            (step is Again || step is Yield) ==> 0 <= steps_left(next) < steps_left(at)
                && next.retries < READINESS_RETRY_BUDGET
        }),
{
}

/// An actor is handed out only where it answered, serves, and its entity is
/// not deleted.
pub proof fn law_only_serving_actors_are_handed_out(at: Readiness, probe: ReadinessProbe)
    ensures
        readiness_after(at, probe).1 == ReadinessStep::Ready <==> probe == (
        ReadinessProbe::Answered { serving: true }),
{
}

// ---------------------------------------------------------------------------
// Asking across a drain
// ---------------------------------------------------------------------------

/// What a request has cost so far.
#[derive(Clone, Copy, PartialEq, Eq, Structural, Debug)]
pub struct DrainRetry {
    pub attempts: u32,
    pub elapsed_nanos: u128,
    pub drain_retries: usize,
}

/// What one round of asking gave.
#[derive(Clone, Copy, PartialEq, Eq, Structural, Debug)]
pub struct AskRound {
    pub attempts: u32,
    pub elapsed_nanos: u128,
    /// The actor did not take the request.
    pub rejected: bool,
    /// The actor is behind a drain fence.
    pub drain_fenced: bool,
    /// The actor has stopped.
    pub stopped: bool,
}

/// What to do after a round.
#[derive(Clone, Copy, PartialEq, Eq, Structural, Debug)]
pub enum DrainStep {
    /// Hand the outcome out.
    Finish,
    /// Find a replacement, after the drain where there is one to wait for.
    FindReplacement { after_drain: bool },
}

/// The sum, or the largest value where it does not fit.
pub open spec fn capped_sum(a: int, b: int, cap: int) -> int {
    if a + b <= cap {
        a + b
    } else {
        cap
    }
}

/// A round calls for a replacement.
pub open spec fn follows(at: DrainRetry, round: AskRound) -> bool {
    round.rejected && (round.drain_fenced || !round.stopped) && at.drain_retries
        < DRAIN_RETRY_BUDGET
}

impl DrainRetry {
    pub open spec fn wf(self) -> bool {
        self.elapsed_nanos <= MAX_ELAPSED_NANOS && self.drain_retries <= DRAIN_RETRY_BUDGET
    }

    /// Before the first round.
    pub fn new() -> (r: DrainRetry)
        ensures
            r.wf(),
            r == (DrainRetry { attempts: 0, elapsed_nanos: 0, drain_retries: 0 }),
    {
        DrainRetry { attempts: 0, elapsed_nanos: 0, drain_retries: 0 }
    }

    /// Takes a round in.
    pub fn on_round(&mut self, round: AskRound) -> (r: DrainStep)
        requires
            old(self).wf(),
            round.elapsed_nanos <= MAX_ELAPSED_NANOS,
        ensures
            final(self).wf(),
            final(self).attempts == capped_sum(
                old(self).attempts as int,
                round.attempts as int,
                u32::MAX as int,
            ),
            final(self).elapsed_nanos == capped_sum(
                old(self).elapsed_nanos as int,
                round.elapsed_nanos as int,
                MAX_ELAPSED_NANOS as int,
            ),
            final(self).drain_retries == old(self).drain_retries,
            r == (if follows(*old(self), round) {
                DrainStep::FindReplacement { after_drain: round.drain_fenced }
            } else {
                DrainStep::Finish
            }),
    {
        self.attempts = self.attempts.saturating_add(round.attempts);
        let total: u128 = self.elapsed_nanos + round.elapsed_nanos;
        self.elapsed_nanos = if total <= MAX_ELAPSED_NANOS {
            total
        } else {
            MAX_ELAPSED_NANOS
        };
        if round.rejected && (round.drain_fenced || !round.stopped) && self.drain_retries
            < DRAIN_RETRY_BUDGET {
            DrainStep::FindReplacement { after_drain: round.drain_fenced }
        } else {
            DrainStep::Finish
        }
    }

    /// Takes in whether a replacement was found, and says whether to ask it.
    pub fn on_replacement(&mut self, found: bool) -> (r: bool)
        requires
            old(self).wf(),
            old(self).drain_retries < DRAIN_RETRY_BUDGET,
        ensures
            final(self).wf(),
            r == found,
            *final(self) == (DrainRetry {
                drain_retries: if found {
                    (old(self).drain_retries + 1) as usize
                } else {
                    old(self).drain_retries
                },
                ..*old(self)
            }),
    {
        if found {
            self.drain_retries = self.drain_retries + 1;
        }
        found
    }

    /// Whether the outcome came after a failure that passed.
    pub fn retried(&self, retried_after_transient: bool) -> (r: bool)
        ensures
            r == (retried_after_transient || self.drain_retries > 0),
    {
        retried_after_transient || self.drain_retries > 0
    }
}

/// A request follows at most as many replacements as the budget allows: once
/// they are used up, every round is the last.
pub proof fn law_drain_retries_are_bounded(at: DrainRetry, round: AskRound)
    requires
        at.wf(),
        at.drain_retries == DRAIN_RETRY_BUDGET,
    ensures
        !follows(at, round),
{
}

/// What each probe leads to: a deleted entity is retired; a failed probe ends the wait; a
/// draining actor is always waited for; an actor that is not there is looked for once
/// more; and one that does not serve is looked up again until this has been done three
/// times.
pub proof fn law_probes_decide_the_wait(at: Readiness, probe: ReadinessProbe)
    ensures
        ({
            let (next, step) = readiness_after(at, probe);
            &&& step is Retire <==> probe is Deleted
            &&& probe is Failed ==> step is GiveUp
            &&& probe == (ReadinessProbe::Absent { draining: true }) ==> step == (
            ReadinessStep::Again { after_drain: true }) && next.retries == at.retries
            &&& probe == (ReadinessProbe::Absent { draining: false }) ==> (step is Yield
                <==> !at.retried_absence) && (step is GiveUp <==> at.retried_absence)
            &&& step is Yield ==> next.retried_absence && next.retries == at.retries
            &&& (probe is Rejected || probe == (ReadinessProbe::Answered { serving: false })) ==> (
            step is Again <==> at.retries < 2) && (step is GiveUp <==> at.retries >= 2)
            &&& step is Again ==> !next.retried_absence
            &&& probe matches ReadinessProbe::Rejected { drain_fenced } ==> step == (
            ReadinessStep::Again { after_drain: drain_fenced }) || step == (ReadinessStep::GiveUp {
                after_drain: drain_fenced,
            })
            &&& !(probe is Rejected) && step is GiveUp ==> step == (ReadinessStep::GiveUp {
                after_drain: false,
            })
            &&& (probe is Rejected || probe == (ReadinessProbe::Answered { serving: false }))
                && at.retries < 1000 ==> next.retries == at.retries + 1
        }),
{
}

/// A request follows an actor that did not take it and that was drained or lives on, three
/// times at most; a request that was taken is never asked again, and a stopped actor
/// without a drain has no replacement.
pub proof fn law_requests_follow_drained_actors(at: DrainRetry, round: AskRound)
    ensures
        !round.rejected ==> !follows(at, round),
        round.stopped && !round.drain_fenced ==> !follows(at, round),
        at.drain_retries >= 3 ==> !follows(at, round),
        round.rejected && round.drain_fenced && at.drain_retries < 3 ==> follows(at, round),
        round.rejected && !round.stopped && at.drain_retries < 3 ==> follows(at, round),
{
}

/// A sum counts in full where it fits, and otherwise stands at the cap.
pub proof fn law_capped_sums_stop_at_the_cap(a: int, b: int, cap: int)
    requires
        0 <= a <= cap,
        0 <= b,
    ensures
        a <= capped_sum(a, b, cap) <= cap,
        a + b <= cap ==> capped_sum(a, b, cap) == a + b,
        a + b > cap ==> capped_sum(a, b, cap) == cap,
        capped_sum(a, 0, cap) == a,
{
}

} // verus!
