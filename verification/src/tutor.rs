//! The tutor's bookkeeping: its clock, the learners it knows, and the
//! teaching moments it delivered.
//!
//! What a learner's state is, and how an attempt changes it, is up to the
//! caller (`L`); so is the form in which an attempt's result is kept as the
//! difficulty of a teaching moment (`R`).

use vstd::prelude::*;
use crate::mastery::{outcome_of, stats_consistent, TopicStats, PATIENCE_ATTEMPTS};
use crate::kinds::{IterationOutcome, ResultSignals, TeachingKind, TutorStyle, VelocityTrend};
use crate::registry::{has_name, law_lookup, law_register, lookup, names_distinct, position_of, registered, Registry};
use crate::teaching::{hint_for, hint_view, kind_for, message_for, respond, style_for};

verus! {

/// A teaching moment: the tutor's intervention on one attempt.
#[derive(Debug, Clone)]
pub struct TeachingMoment<R> {
    pub tick: u64,
    pub topic: String,
    pub kind: TeachingKind,
    pub message: String,
    pub difficulty: R,
    pub next_hint: Option<String>,
}

/// The tutor: observes, adapts, teaches.
#[derive(Debug, Clone)]
pub struct Tutor<L, R> {
    pub id: String,
    pub style: TutorStyle,
    pub learner_vibrations: Registry<L>,
    pub teaching_history: Vec<TeachingMoment<R>>,
    pub tick: u64,
    /// How many iterations before the tutor intervenes on "stuck": a poor
    /// result is judged stuck only once the attempts on the topic exceed it.
    pub patience_threshold: u32,
}

/// The moment is the tutor's answer, at `tick`, to an attempt on `topic`
/// with the given outcome, taught in `style`, with the given difficulty.
pub open spec fn moment_answers<R>(
    m: TeachingMoment<R>,
    tick: u64,
    topic: Seq<char>,
    outcome: IterationOutcome,
    style: TutorStyle,
    difficulty: R,
) -> bool {
    &&& m.tick == tick
    &&& m.topic@ == topic
    &&& m.kind == kind_for(outcome, style)
    &&& m.message@ == message_for(outcome, style, topic)
    &&& m.difficulty == difficulty
    &&& hint_view(m.next_hint) == hint_for(outcome, style, topic)
}

/// After registering, the name reads the new value and every other name
/// reads what it read before.
proof fn lemma_register_reads<L>(learners: Seq<(Seq<char>, L)>, learner: Seq<char>, state: L)
    requires
        names_distinct(learners),
    ensures
        lookup(registered(learners, learner, state), learner) == Some(state),
        forall|other: Seq<char>| other != learner
            ==> #[trigger] lookup(registered(learners, learner, state), other) == lookup(learners, other),
{
    assert(learner.push('x').len() != learner.len());
    law_register(learners, learner, state, learner.push('x'));
    assert forall|other: Seq<char>| other != learner
        implies #[trigger] lookup(registered(learners, learner, state), other) == lookup(learners, other) by {
        law_register(learners, learner, state, other);
    }
}

/// The state a learner is observed from: the one registered under the
/// name, or `fresh` for a learner not known yet.
pub open spec fn state_before<L>(learners: Seq<(Seq<char>, L)>, learner: Seq<char>, fresh: L) -> L {
    match lookup(learners, learner) {
        Some(state) => state,
        None => fresh,
    }
}

impl<L, R> Tutor<L, R> {
    /// The teaching history reads in time order, and none of its moments
    /// lies ahead of the tutor's clock.
    pub open spec fn chronological(&self) -> bool {
        &&& forall|i: int, j: int| 0 <= i < j < self.teaching_history@.len()
            ==> #[trigger] self.teaching_history@[i].tick <= #[trigger] self.teaching_history@[j].tick
        &&& forall|i: int| 0 <= i < self.teaching_history@.len() ==> #[trigger] self.teaching_history@[i].tick <= self.tick
    }

    /// A tutor with no learners, no teaching delivered, and its clock at zero.
    pub fn new(id: &str, style: TutorStyle) -> (t: Self)
        ensures
            t.id@ == id@,
            t.style == style,
            t.learner_vibrations@ == Seq::<(Seq<char>, L)>::empty(),
            t.teaching_history@ == Seq::<TeachingMoment<R>>::empty(),
            t.tick == 0,
            t.patience_threshold == PATIENCE_ATTEMPTS,
            t.chronological(),
    {
        Tutor {
            id: String::from_str(id),
            style,
            learner_vibrations: Registry::new(),
            teaching_history: Vec::new(),
            tick: 0,
            patience_threshold: PATIENCE_ATTEMPTS,
        }
    }

    /// Registers a learner with a fresh state, replacing any state kept
    /// under that name.
    pub fn register(&mut self, learner: &str, fresh: L)
        ensures
            final(self).learner_vibrations@ == registered(old(self).learner_vibrations@, learner@, fresh),
            final(self).id == old(self).id,
            final(self).style == old(self).style,
            final(self).teaching_history@ == old(self).teaching_history@,
            final(self).tick == old(self).tick,
            final(self).patience_threshold == old(self).patience_threshold,
            old(self).chronological() ==> final(self).chronological(),
    {
        self.learner_vibrations.insert(learner, fresh);
    }

    /// Total teaching moments delivered.
    pub fn teachings_delivered(&self) -> (n: usize)
        ensures
            n == self.teaching_history@.len(),
    {
        self.teaching_history.len()
    }

    /// How many learners are registered.
    pub fn learner_count(&self) -> (n: usize)
        ensures
            n == self.learner_vibrations@.len(),
    {
        self.learner_vibrations.len()
    }

    /// Starts observing an attempt of a learner: the clock advances by one,
    /// and a learner not known yet is registered with a fresh state. Gives
    /// back where the learner stands.
    pub fn begin_observation(&mut self, learner: &str, fresh: L) -> (i: usize)
        requires
            old(self).tick < u64::MAX,
        ensures
            final(self).tick == old(self).tick + 1,
            has_name(old(self).learner_vibrations@, learner@)
                ==> final(self).learner_vibrations@ == old(self).learner_vibrations@,
            !has_name(old(self).learner_vibrations@, learner@)
                ==> final(self).learner_vibrations@ == old(self).learner_vibrations@.push((learner@, fresh)),
            i < final(self).learner_vibrations@.len(),
            i == position_of(final(self).learner_vibrations@, learner@),
            final(self).id == old(self).id,
            final(self).style == old(self).style,
            final(self).teaching_history@ == old(self).teaching_history@,
            final(self).patience_threshold == old(self).patience_threshold,
            old(self).chronological() ==> final(self).chronological(),
    {
        self.tick = self.tick + 1;
        self.learner_vibrations.get_or_insert(learner, fresh)
    }

    /// Judges the attempt being observed on a topic whose counters are
    /// `stats`: the attempt is recorded at the current tick, under this
    /// tutor's patience.
    pub fn judge_attempt(&self, stats: &mut TopicStats, signals: ResultSignals) -> (outcome: IterationOutcome)
        requires
            old(stats).iterations < u32::MAX,
            outcome_of(signals, old(stats).iterations + 1, self.patience_threshold as int) == IterationOutcome::Breakthrough
                ==> old(stats).breakthroughs < u32::MAX,
            outcome_of(signals, old(stats).iterations + 1, self.patience_threshold as int) == IterationOutcome::Stuck
                ==> old(stats).stuck_count < u32::MAX,
        ensures
            outcome == outcome_of(signals, old(stats).iterations + 1, self.patience_threshold as int),
            final(stats).iterations == old(stats).iterations + 1,
            final(stats).last_touch_tick == self.tick,
            final(stats).breakthroughs == old(stats).breakthroughs
                + if outcome == IterationOutcome::Breakthrough { 1int } else { 0int },
            final(stats).stuck_count == old(stats).stuck_count
                + if outcome == IterationOutcome::Stuck { 1int } else { 0int },
            stats_consistent(*old(stats)) ==> stats_consistent(*final(stats)),
    {
        stats.record(signals, self.tick, self.patience_threshold)
    }

    /// Finishes observing an attempt on `topic`: the tutor answers its
    /// outcome in the style it picks for the learner's trend, and delivers
    /// the answer as a teaching moment at the current tick.
    pub fn finish_observation(&mut self, topic: &str, outcome: IterationOutcome, trend: VelocityTrend, difficulty: R)
        ensures
            final(self).teaching_history@.len() == old(self).teaching_history@.len() + 1,
            final(self).teaching_history@.drop_last() == old(self).teaching_history@,
            moment_answers(
                final(self).teaching_history@.last(),
                old(self).tick,
                topic@,
                outcome,
                style_for(old(self).style, trend),
                difficulty,
            ),
            final(self).teaching_history@.last().kind == kind_for(outcome, style_for(old(self).style, trend)),
            hint_view(final(self).teaching_history@.last().next_hint)
                == hint_for(outcome, style_for(old(self).style, trend), topic@),
            final(self).id == old(self).id,
            final(self).style == old(self).style,
            final(self).learner_vibrations@ == old(self).learner_vibrations@,
            final(self).tick == old(self).tick,
            final(self).patience_threshold == old(self).patience_threshold,
            old(self).chronological() ==> final(self).chronological(),
    {
        let teaching = respond(self.style, trend, outcome, topic);
        let moment = TeachingMoment {
            tick: self.tick,
            topic: String::from_str(topic),
            kind: teaching.kind,
            message: teaching.message,
            difficulty,
            next_hint: teaching.next_hint,
        };
        let ghost before = self.teaching_history@;
        self.teaching_history.push(moment);
        proof {
            assert(self.teaching_history@.drop_last() =~= before);
        }
    }

    /// Observes an attempt of a learner on a topic, whole: the clock
    /// advances by one; `step` updates the learner's state (a fresh one for a
    /// learner not known yet), given the new tick and the tutor's patience,
    /// and tells what the attempt amounted to and the learner's trend; the
    /// updated state is written back under the learner's name; and the tutor
    /// delivers its answer as a teaching moment at the new tick.
    pub fn observe_with<F>(&mut self, learner: &str, topic: &str, fresh: L, difficulty: R, step: F)
        where
            F: FnOnce(L, u64, u32) -> (L, IterationOutcome, VelocityTrend),
        requires
            old(self).tick < u64::MAX,
            forall|state: L| #[trigger] call_requires(
                step,
                (state, (old(self).tick + 1) as u64, old(self).patience_threshold),
            ),
        ensures
            final(self).tick == old(self).tick + 1,
            exists|r: (L, IterationOutcome, VelocityTrend)| {
                &&& #[trigger] call_ensures(
                    step,
                    (
                        state_before(old(self).learner_vibrations@, learner@, fresh),
                        final(self).tick,
                        old(self).patience_threshold,
                    ),
                    r,
                )
                &&& final(self).learner_vibrations@ == registered(old(self).learner_vibrations@, learner@, r.0)
                &&& lookup(final(self).learner_vibrations@, learner@) == Some(r.0)
                &&& moment_answers(
                    final(self).teaching_history@.last(),
                    final(self).tick,
                    topic@,
                    r.1,
                    style_for(old(self).style, r.2),
                    difficulty,
                )
            },
            forall|other: Seq<char>| other != learner@
                ==> #[trigger] lookup(final(self).learner_vibrations@, other) == lookup(old(self).learner_vibrations@, other),
            final(self).teaching_history@.len() == old(self).teaching_history@.len() + 1,
            final(self).teaching_history@.drop_last() == old(self).teaching_history@,
            final(self).id == old(self).id,
            final(self).style == old(self).style,
            final(self).patience_threshold == old(self).patience_threshold,
            old(self).chronological() ==> final(self).chronological(),
    {
        let _ = self.learner_vibrations.len();
        self.tick = self.tick + 1;
        let tick = self.tick;
        let patience = self.patience_threshold;
        let ghost prior = state_before(self.learner_vibrations@, learner@, fresh);
        match self.learner_vibrations.find(learner) {
            Some(i) => {
                let current = self.learner_vibrations.replace_at(i, fresh);
                let r = step(current, tick, patience);
                let ghost witness = r;
                let (state, outcome, trend) = r;
                self.learner_vibrations.replace_at(i, state);
                self.finish_observation(topic, outcome, trend, difficulty);
                proof {
                    assert(call_ensures(step, (prior, tick, patience), witness));
                    assert(self.learner_vibrations@ == registered(old(self).learner_vibrations@, learner@, witness.0));
                    lemma_register_reads(old(self).learner_vibrations@, learner@, witness.0);
                }
            },
            None => {
                let r = step(fresh, tick, patience);
                let ghost witness = r;
                let (state, outcome, trend) = r;
                self.learner_vibrations.insert(learner, state);
                self.finish_observation(topic, outcome, trend, difficulty);
                proof {
                    assert(call_ensures(step, (prior, tick, patience), witness));
                    lemma_register_reads(old(self).learner_vibrations@, learner@, witness.0);
                }
            },
        }
    }
}

/// The tutor intervenes on being stuck (a hint, a redirect, or patience)
/// exactly when the result is poor, is no breakthrough, and the attempts on
/// the topic exceed the tutor's patience, whatever style it teaches in.
pub proof fn law_intervenes_on_stuck(signals: ResultSignals, attempts: int, patience: int, style: TutorStyle)
    ensures
        ({
            let kind = kind_for(outcome_of(signals, attempts, patience), style);
            kind == TeachingKind::Hint || kind == TeachingKind::Redirect || kind == TeachingKind::Patience
        }) <==> (!(signals.exceptional && signals.novice) && signals.poor && attempts > patience),
{
}

/// An observation starts from the state registered under the learner's
/// name, whatever else is registered, and from the fresh state only for a
/// learner not registered.
pub proof fn law_state_before<L>(learners: Seq<(Seq<char>, L)>, i: int, stranger: Seq<char>, fresh: L)
    requires
        names_distinct(learners),
        0 <= i < learners.len(),
        !has_name(learners, stranger),
    ensures
        state_before(learners, learners[i].0, fresh) == learners[i].1,
        state_before(learners, stranger, fresh) == fresh,
{
    law_lookup(learners, i);
}

/// A moment that answers an attempt carries exactly the tick, topic,
/// difficulty, kind, message and hint of that answer.
pub proof fn law_moment_answers<R>(
    m: TeachingMoment<R>,
    tick: u64,
    topic: Seq<char>,
    outcome: IterationOutcome,
    style: TutorStyle,
    difficulty: R,
)
    requires
        moment_answers(m, tick, topic, outcome, style, difficulty),
    ensures
        m.tick == tick,
        m.topic@ == topic,
        m.difficulty == difficulty,
        m.kind == kind_for(outcome, style),
        m.message@ == message_for(outcome, style, topic),
        m.next_hint is None <==> hint_for(outcome, style, topic) is None,
        m.next_hint matches Some(h) ==> hint_for(outcome, style, topic) == Some(h@),
{
}

} // verus!
