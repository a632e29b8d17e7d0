//! The discrete vocabulary of the tutor: what an attempt amounted to, how the
//! tutor answers, and in which style it teaches.

use vstd::prelude::*;

verus! {

/// What one attempt of a learner on a topic amounted to.
#[derive(Debug, Clone, Copy, PartialEq, Eq, Structural)]
pub enum IterationOutcome {
    Breakthrough,
    Progress,
    Plateau,
    Stuck,
}

/// The kind of intervention the tutor makes.
#[derive(Debug, Clone, Copy, PartialEq, Eq, Structural)]
pub enum TeachingKind {
    /// "You just discovered X!": celebrate a breakthrough.
    Celebration,
    /// "Try thinking about it this way...": a gentle redirect.
    Redirect,
    /// "Remember when X worked? This is similar...": connect to prior knowledge.
    Connection,
    /// "What if you tried X?": a specific hint.
    Hint,
    /// "You and a friend both struggled with this: work together!"
    Collaborate,
    /// "Here's why it works...": a deeper explanation after success.
    Deepen,
    /// "You're ready for something harder."
    LevelUp,
    /// "Take a breath. This is a hard concept. Let's sit with it."
    Patience,
}

/// How the tutor teaches.
#[derive(Debug, Clone, Copy, PartialEq, Eq, Structural)]
pub enum TutorStyle {
    /// Patient, encouraging, gives hints.
    Guide,
    /// Challenging, asks questions, waits for answers.
    Socratic,
    /// Hands-off, lets you fail, teaches from failure.
    Experimental,
    /// Adapts its style to the learner.
    Adaptive,
}

/// Which way a learner's overall understanding moved on the last attempt:
/// up by more than a tenth, down by more than a twentieth, or neither.
#[derive(Debug, Clone, Copy, PartialEq, Eq, Structural)]
pub enum VelocityTrend {
    Rising,
    Steady,
    Falling,
}

/// The comparisons of one reported result that decide what the attempt
/// amounted to.
#[derive(Debug, Clone, Copy, PartialEq, Eq, Structural)]
pub struct ResultSignals {
    /// The result is above the breakthrough mark (0.8).
    pub exceptional: bool,
    /// The topic's level before the attempt is below one half.
    pub novice: bool,
    /// The result is below the struggle mark (0.3).
    pub poor: bool,
    /// The result is above the topic's level before the attempt.
    pub improved: bool,
}

} // verus!
