use lucid_tutor::{
    IterationOutcome, LearningGroup, Registry, ResultSignals, TeachingKind, TeachingMoment, TopicStats, Tutor, TutorStyle,
    VelocityTrend, PATIENCE_ATTEMPTS,
};

/// A learner as these tests keep one: per topic, the level reached and the
/// counters.
type Topics = Registry<(f64, TopicStats)>;

fn signals_for(result: f64, level: f64) -> ResultSignals {
    ResultSignals { exceptional: result > 0.8, novice: level < 0.5, poor: result < 0.3, improved: result > level }
}

fn level_after(level: f64, result: f64, outcome: IterationOutcome) -> f64 {
    match outcome {
        IterationOutcome::Breakthrough => (level + result * 0.3).min(1.0),
        IterationOutcome::Progress => (level + (result - level) * 0.5).min(1.0),
        _ => level,
    }
}

/// One observation by a tutor with a fixed style, step by step.
fn observe(t: &mut Tutor<Topics, f64>, learner: &str, topic: &str, result: f64) -> Option<TeachingMoment<f64>> {
    let i = t.begin_observation(learner, Registry::new());
    let mut topics = t.learner_vibrations.replace_at(i, Registry::new());
    let j = topics.get_or_insert(topic, (0.0, TopicStats::new()));
    let (level, mut stats) = *topics.value_at(j);
    let outcome = t.judge_attempt(&mut stats, signals_for(result, level));
    topics.replace_at(j, (level_after(level, result, outcome), stats));
    t.learner_vibrations.replace_at(i, topics);
    t.finish_observation(topic, outcome, VelocityTrend::Steady, result);
    t.teaching_history.last().cloned()
}

#[test]
fn test_tutor_observe_breakthrough() {
    let mut t: Tutor<Topics, f64> = Tutor::new("sparky", TutorStyle::Guide);
    t.register("alice", Registry::new());
    let moment = observe(&mut t, "alice", "conservation", 0.95).unwrap();
    assert_eq!(moment.kind, TeachingKind::Celebration);
}

#[test]
fn test_tutor_observe_stuck_guide() {
    let mut t: Tutor<Topics, f64> = Tutor::new("sparky", TutorStyle::Guide);
    t.register("alice", Registry::new());
    for _ in 0..4 {
        observe(&mut t, "alice", "math", 0.1);
    }
    let moment = t.teaching_history.last().unwrap();
    assert_eq!(moment.kind, TeachingKind::Hint);
}

#[test]
fn test_teachings_delivered() {
    let mut t: Tutor<Topics, f64> = Tutor::new("sparky", TutorStyle::Guide);
    t.register("alice", Registry::new());
    observe(&mut t, "alice", "math", 0.5);
    observe(&mut t, "alice", "math", 0.6);
    assert_eq!(t.teachings_delivered(), 2);
}

#[test]
fn test_teaching_history() {
    let mut t: Tutor<Topics, f64> = Tutor::new("sparky", TutorStyle::Guide);
    t.register("alice", Registry::new());
    observe(&mut t, "alice", "a", 0.5);
    observe(&mut t, "alice", "b", 0.8);
    observe(&mut t, "alice", "a", 0.3);
    assert_eq!(t.teaching_history.len(), 3);
}

#[test]
fn the_tutors_patience_decides_when_it_intervenes() {
    let mut t: Tutor<Topics, f64> = Tutor::new("sparky", TutorStyle::Guide);
    assert_eq!(t.patience_threshold, PATIENCE_ATTEMPTS);
    t.patience_threshold = 5;
    t.register("alice", Registry::new());
    for _ in 0..5 {
        let moment = observe(&mut t, "alice", "math", 0.1).unwrap();
        assert_ne!(moment.kind, TeachingKind::Hint);
    }
    let moment = observe(&mut t, "alice", "math", 0.1).unwrap();
    assert_eq!(moment.kind, TeachingKind::Hint);
    let topics = t.learner_vibrations.get("alice").unwrap();
    assert_eq!(topics.get("math").unwrap().1.stuck_count, 1);
    assert_eq!(topics.get("math").unwrap().1.iterations, 6);
}

#[test]
fn test_learning_group() {
    let mut g: LearningGroup<Topics> = LearningGroup::new("team-1", vec!["alice".into(), "bob".into()], Registry::new());
    g.begin_session("math");
    let results: [(String, f64); 2] = [("alice".into(), 0.7), ("bob".into(), 0.8)];
    let mut outcomes = Vec::new();
    for (_, r) in results.iter() {
        let j = g.group_vibration.get_or_insert("math", (0.0, TopicStats::new()));
        let (level, mut stats) = *g.group_vibration.value_at(j);
        let outcome = stats.record(signals_for(*r, level), 1, PATIENCE_ATTEMPTS);
        g.group_vibration.replace_at(j, (level_after(level, *r, outcome), stats));
        outcomes.push(outcome);
    }
    assert_eq!(outcomes.len(), 2);
    assert_eq!(g.iterations_together, 1);
}

#[test]
fn test_learner_count() {
    let mut t: Tutor<(), f64> = Tutor::new("sparky", TutorStyle::Guide);
    t.register("alice", ());
    t.register("bob", ());
    t.register("carol", ());
    assert_eq!(t.learner_count(), 3);
}

#[test]
fn a_new_tutor_is_idle() {
    let t: Tutor<u8, f64> = Tutor::new("sparky", TutorStyle::Adaptive);
    assert_eq!(t.id, "sparky");
    assert_eq!(t.style, TutorStyle::Adaptive);
    assert_eq!(t.tick, 0);
    assert_eq!(t.patience_threshold, 3);
    assert_eq!(t.learner_count(), 0);
    assert_eq!(t.teachings_delivered(), 0);
}

#[test]
fn registering_again_resets_the_learner() {
    let mut t: Tutor<u32, f64> = Tutor::new("sparky", TutorStyle::Guide);
    t.register("alice", 4);
    t.register("alice", 0);
    assert_eq!(t.learner_count(), 1);
    assert_eq!(t.learner_vibrations.get("alice"), Some(&0));
}

#[test]
fn observing_an_unknown_learner_registers_them() {
    let mut t: Tutor<u32, f64> = Tutor::new("sparky", TutorStyle::Guide);
    t.register("alice", 9);
    let i = t.begin_observation("bob", 0);
    assert_eq!(i, 1);
    assert_eq!(t.tick, 1);
    assert_eq!(t.learner_count(), 2);
    let j = t.begin_observation("alice", 0);
    assert_eq!(j, 0);
    assert_eq!(t.tick, 2);
    assert_eq!(t.learner_vibrations.get("alice"), Some(&9));
}

#[test]
fn each_observation_delivers_one_moment() {
    let mut t: Tutor<u32, f64> = Tutor::new("sparky", TutorStyle::Guide);
    t.begin_observation("alice", 0);
    t.finish_observation("conservation", IterationOutcome::Breakthrough, VelocityTrend::Rising, 0.95);
    assert_eq!(t.teachings_delivered(), 1);
    let m = t.teaching_history.last().unwrap();
    assert_eq!(m.tick, 1);
    assert_eq!(m.topic, "conservation");
    assert_eq!(m.kind, TeachingKind::Celebration);
    assert_eq!(m.difficulty, 0.95);
    assert_eq!(m.message, "Yes! You just cracked conservation! That's a breakthrough.");

    t.begin_observation("alice", 0);
    t.finish_observation("math", IterationOutcome::Stuck, VelocityTrend::Falling, 0.1);
    assert_eq!(t.teachings_delivered(), 2);
    let m = t.teaching_history.last().unwrap();
    assert_eq!(m.tick, 2);
    assert_eq!(m.kind, TeachingKind::Hint);
    assert_eq!(t.teaching_history[0].topic, "conservation");
}

#[test]
fn adaptive_tutor_answers_in_the_style_of_the_trend() {
    let mut t: Tutor<u32, f64> = Tutor::new("sparky", TutorStyle::Adaptive);
    t.begin_observation("alice", 0);
    t.finish_observation("math", IterationOutcome::Stuck, VelocityTrend::Rising, 0.1);
    assert_eq!(t.teaching_history[0].kind, TeachingKind::Redirect);
    t.finish_observation("math", IterationOutcome::Stuck, VelocityTrend::Steady, 0.1);
    assert_eq!(t.teaching_history[1].kind, TeachingKind::Patience);
    assert_eq!(t.teaching_history[1].next_hint, None);
}

#[test]
fn a_session_together_is_counted_and_its_topic_shared_once() {
    let mut g: LearningGroup<u8> = LearningGroup::new("team-1", vec!["alice".into(), "bob".into()], 0);
    assert_eq!(g.iterations_together, 0);
    assert!(g.shared_topics.is_empty());
    g.begin_session("math");
    g.begin_session("math");
    g.begin_session("physics");
    assert_eq!(g.iterations_together, 3);
    assert_eq!(g.shared_topics, vec!["math".to_string(), "physics".to_string()]);
    assert_eq!(g.members.len(), 2);
    assert_eq!(g.id, "team-1");
}

#[test]
fn history_reads_in_time_order() {
    let mut t: Tutor<u32, f64> = Tutor::new("sparky", TutorStyle::Socratic);
    for (k, topic) in ["a", "b", "a"].iter().enumerate() {
        t.begin_observation("alice", 0);
        t.finish_observation(topic, IterationOutcome::Progress, VelocityTrend::Steady, k as f64);
    }
    assert_eq!(t.teachings_delivered(), 3);
    let ticks: Vec<u64> = t.teaching_history.iter().map(|m| m.tick).collect();
    assert_eq!(ticks, vec![1, 2, 3]);
    assert!(t.teaching_history.iter().all(|m| m.kind == TeachingKind::Deepen && m.next_hint.is_none()));
}

#[test]
fn observe_with_writes_back_the_learner_and_answers_at_the_new_tick() {
    let mut t: Tutor<u32, f64> = Tutor::new("sparky", TutorStyle::Adaptive);
    t.register("alice", 10);
    t.register("bob", 20);
    t.observe_with("alice", "math", 0, 0.1, |state, tick, patience| {
        assert_eq!(tick, 1);
        assert_eq!(patience, PATIENCE_ATTEMPTS);
        (state + 1, IterationOutcome::Stuck, VelocityTrend::Falling)
    });
    assert_eq!(t.tick, 1);
    assert_eq!(t.learner_vibrations.get("alice"), Some(&11));
    assert_eq!(t.learner_vibrations.get("bob"), Some(&20));
    let m = t.teaching_history.last().unwrap();
    assert_eq!(m.tick, 1);
    assert_eq!(m.kind, TeachingKind::Hint);
    assert_eq!(m.difficulty, 0.1);

    t.observe_with("carol", "art", 5, 0.9, |state, _, _| (state * 2, IterationOutcome::Breakthrough, VelocityTrend::Rising));
    assert_eq!(t.learner_count(), 3);
    assert_eq!(t.learner_vibrations.get("carol"), Some(&10));
    assert_eq!(t.teaching_history.last().unwrap().kind, TeachingKind::Celebration);
    assert_eq!(t.teaching_history.last().unwrap().tick, 2);
    assert_eq!(t.teachings_delivered(), 2);
}
