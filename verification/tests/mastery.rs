use lucid_tutor::{classify_iteration, IterationOutcome, ResultSignals, TopicStats, PATIENCE_ATTEMPTS};

fn signals(exceptional: bool, novice: bool, poor: bool, improved: bool) -> ResultSignals {
    ResultSignals { exceptional, novice, poor, improved }
}

/// The signals of a result on a topic whose level before the attempt was `level`.
fn judge(result: f64, level: f64) -> ResultSignals {
    signals(result > 0.8, level < 0.5, result < 0.3, result > level)
}

#[test]
fn fresh_topic_has_no_attempts() {
    let s = TopicStats::new();
    assert_eq!(s.iterations, 0);
    assert_eq!(s.last_touch_tick, 0);
    assert_eq!(s.breakthroughs, 0);
    assert_eq!(s.stuck_count, 0);
}

#[test]
fn test_topic_mastery() {
    let mut s = TopicStats::new();
    s.record(judge(0.5, 0.0), 1, PATIENCE_ATTEMPTS);
    assert_eq!(s.iterations, 1);
    assert_eq!(s.last_touch_tick, 1);
    s.record(judge(0.5, 0.25), 7, PATIENCE_ATTEMPTS);
    assert_eq!(s.iterations, 2);
    assert_eq!(s.last_touch_tick, 7);
}

#[test]
fn exceptional_result_on_new_topic_is_breakthrough() {
    let mut s = TopicStats::new();
    let outcome = s.record(judge(0.9, 0.0), 1, PATIENCE_ATTEMPTS);
    assert_eq!(outcome, IterationOutcome::Breakthrough);
    assert_eq!(s.breakthroughs, 1);
    assert_eq!(s.stuck_count, 0);
}

#[test]
fn exceptional_result_on_mastered_topic_is_progress() {
    let mut s = TopicStats::new();
    assert_eq!(s.record(judge(0.9, 0.6), 1, PATIENCE_ATTEMPTS), IterationOutcome::Progress);
    assert_eq!(s.breakthroughs, 0);
}

#[test]
fn test_iteration_stuck() {
    let mut s = TopicStats::new();
    let mut level = 0.0;
    for tick in 1..4u64 {
        let outcome = s.record(judge(0.1, level), tick, PATIENCE_ATTEMPTS);
        assert_eq!(outcome, IterationOutcome::Progress);
        level = level + (0.1 - level) * 0.5;
    }
    assert_eq!(s.stuck_count, 0);
    let outcome = s.record(judge(0.1, level), 4, PATIENCE_ATTEMPTS);
    assert_eq!(outcome, IterationOutcome::Stuck);
    assert_eq!(s.stuck_count, 1);
    assert_eq!(s.iterations, 4);
}

#[test]
fn test_iteration_progress() {
    let mut s = TopicStats::new();
    s.record(judge(0.3, 0.0), 1, PATIENCE_ATTEMPTS);
    assert_eq!(s.record(judge(0.6, 0.15), 2, PATIENCE_ATTEMPTS), IterationOutcome::Progress);
}

#[test]
fn same_result_is_plateau() {
    assert_eq!(classify_iteration(judge(0.5, 0.5), 3, 3), IterationOutcome::Plateau);
}

#[test]
fn breakthrough_comes_before_stuck() {
    let all = signals(true, true, true, true);
    assert_eq!(classify_iteration(all, 10, 3), IterationOutcome::Breakthrough);
    let stuck = signals(false, true, true, true);
    assert_eq!(classify_iteration(stuck, 4, 3), IterationOutcome::Stuck);
    assert_eq!(classify_iteration(stuck, 3, 3), IterationOutcome::Progress);
    assert_eq!(classify_iteration(signals(false, true, true, false), 3, 3), IterationOutcome::Plateau);
}

#[test]
fn patience_decides_when_stuck_begins() {
    let poor = signals(false, true, true, false);
    assert_eq!(classify_iteration(poor, 5, 5), IterationOutcome::Plateau);
    assert_eq!(classify_iteration(poor, 6, 5), IterationOutcome::Stuck);
    assert_eq!(classify_iteration(poor, 1, 0), IterationOutcome::Stuck);
    let mut s = TopicStats::new();
    for tick in 1..=5u64 {
        assert_eq!(s.record(poor, tick, 5), IterationOutcome::Plateau);
    }
    assert_eq!(s.record(poor, 6, 5), IterationOutcome::Stuck);
    assert_eq!(s.stuck_count, 1);
}

#[test]
fn counters_taken_as_given() {
    let mut s = TopicStats { iterations: 2, last_touch_tick: 9, breakthroughs: 5, stuck_count: 7 };
    assert_eq!(s.record(signals(true, true, false, true), 10, 3), IterationOutcome::Breakthrough);
    assert_eq!(s, TopicStats { iterations: 3, last_touch_tick: 10, breakthroughs: 6, stuck_count: 7 });
}
