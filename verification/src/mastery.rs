//! How a single attempt on a topic is judged, and the counters a topic keeps.

use vstd::prelude::*;
use crate::kinds::{IterationOutcome, ResultSignals};

verus! {

/// The patience a tutor starts with, and the one a group learning without a
/// tutor keeps: how many attempts on a topic may be made before a poor
/// result counts as being stuck.
pub const PATIENCE_ATTEMPTS: u32 = 3;

/// What an attempt amounted to, given its signals, the number of attempts
/// on the topic (this one included) and the patience in force.
///
/// A breakthrough (an exceptional result on a topic not yet half mastered)
/// comes first; then being stuck (a poor result once the attempts exceed the
/// patience); then progress (a result above the previous level); otherwise a
/// plateau.
pub open spec fn outcome_of(signals: ResultSignals, attempts: int, patience: int) -> IterationOutcome {
    if signals.exceptional && signals.novice {
        IterationOutcome::Breakthrough
    } else if signals.poor && attempts > patience {
        IterationOutcome::Stuck
    } else if signals.improved {
        IterationOutcome::Progress
    } else {
        IterationOutcome::Plateau
    }
}

/// Judges an attempt: `attempts` counts the attempts on the topic, this one
/// included; `patience` is how many attempts may be made before a poor
/// result counts as being stuck.
pub fn classify_iteration(signals: ResultSignals, attempts: u32, patience: u32) -> (outcome: IterationOutcome)
    ensures
        outcome == outcome_of(signals, attempts as int, patience as int),
{
    if signals.exceptional && signals.novice {
        IterationOutcome::Breakthrough
    } else if signals.poor && attempts > patience {
        IterationOutcome::Stuck
    } else if signals.improved {
        IterationOutcome::Progress
    } else {
        IterationOutcome::Plateau
    }
}

/// The counters a learner keeps for one topic: attempts, the tick of the
/// last attempt, breakthroughs and times stuck.
#[derive(Debug, Clone, Copy, PartialEq, Eq, Structural)]
pub struct TopicStats {
    pub iterations: u32,
    pub last_touch_tick: u64,
    pub breakthroughs: u32,
    pub stuck_count: u32,
}

/// The counters agree with some sequence of attempts: every breakthrough and
/// every time stuck was one attempt.
pub open spec fn stats_consistent(s: TopicStats) -> bool {
    s.breakthroughs + s.stuck_count <= s.iterations
}

impl TopicStats {
    /// The counters of a topic nobody has attempted yet.
    pub fn new() -> (s: Self)
        ensures
            s == (TopicStats { iterations: 0, last_touch_tick: 0, breakthroughs: 0, stuck_count: 0 }),
            stats_consistent(s),
    {
        TopicStats { iterations: 0, last_touch_tick: 0, breakthroughs: 0, stuck_count: 0 }
    }

    /// Records one attempt made at `tick` under the given patience: counts
    /// it, judges it, and counts a breakthrough or a time stuck where it was
    /// one. A counter that would pass its largest value is left out: there
    /// the count cannot go on.
    pub fn record(&mut self, signals: ResultSignals, tick: u64, patience: u32) -> (outcome: IterationOutcome)
        requires
            old(self).iterations < u32::MAX,
            outcome_of(signals, old(self).iterations + 1, patience as int) == IterationOutcome::Breakthrough
                ==> old(self).breakthroughs < u32::MAX,
            outcome_of(signals, old(self).iterations + 1, patience as int) == IterationOutcome::Stuck
                ==> old(self).stuck_count < u32::MAX,
        ensures
            outcome == outcome_of(signals, old(self).iterations + 1, patience as int),
            final(self).iterations == old(self).iterations + 1,
            final(self).last_touch_tick == tick,
            final(self).breakthroughs == old(self).breakthroughs
                + if outcome == IterationOutcome::Breakthrough { 1int } else { 0int },
            final(self).stuck_count == old(self).stuck_count
                + if outcome == IterationOutcome::Stuck { 1int } else { 0int },
            stats_consistent(*old(self)) ==> stats_consistent(*final(self)),
    {
        let attempts = self.iterations + 1;
        let outcome = classify_iteration(signals, attempts, patience);
        self.iterations = attempts;
        self.last_touch_tick = tick;
        match outcome {
            IterationOutcome::Breakthrough => { self.breakthroughs = self.breakthroughs + 1; },
            IterationOutcome::Stuck => { self.stuck_count = self.stuck_count + 1; },
            _ => {},
        }
        outcome
    }
}

/// Patience: as long as the attempts on a topic do not exceed the patience,
/// a learner is never judged stuck, however poor the result.
pub proof fn law_patience(signals: ResultSignals, attempts: int, patience: int)
    requires
        attempts <= patience,
    ensures
        outcome_of(signals, attempts, patience) != IterationOutcome::Stuck,
{
}

/// A learner is judged stuck exactly when the result is poor, is no
/// breakthrough, and the attempts exceed the patience.
pub proof fn law_stuck_exactly(signals: ResultSignals, attempts: int, patience: int)
    ensures
        (outcome_of(signals, attempts, patience) == IterationOutcome::Stuck)
            <==> (!(signals.exceptional && signals.novice) && signals.poor && attempts > patience),
{
}

/// An exceptional result on a topic not yet half mastered is a breakthrough
/// on any attempt and under any patience, and nothing else is.
pub proof fn law_breakthrough(signals: ResultSignals, attempts: int, patience: int)
    ensures
        (outcome_of(signals, attempts, patience) == IterationOutcome::Breakthrough)
            <==> (signals.exceptional && signals.novice),
{
}

/// A result that is neither stuck nor a breakthrough is progress exactly
/// when it beats the previous level.
pub proof fn law_progress(signals: ResultSignals, attempts: int, patience: int)
    requires
        !(signals.exceptional && signals.novice),
        !(signals.poor && attempts > patience),
    ensures
        (outcome_of(signals, attempts, patience) == IterationOutcome::Progress) <==> signals.improved,
{
}

} // verus!
