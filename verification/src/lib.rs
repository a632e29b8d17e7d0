//! Lucid Tutor: the verified decision core of an adaptive tutoring engine.

use vstd::prelude::*;

pub mod kinds;
pub mod mastery;
pub mod teaching;
pub mod registry;
pub mod group;
pub mod tutor;

pub use kinds::{IterationOutcome, ResultSignals, TeachingKind, TutorStyle, VelocityTrend};
pub use mastery::{classify_iteration, outcome_of, TopicStats, PATIENCE_ATTEMPTS};
pub use teaching::{compose_teaching, effective_style, respond, Teaching};
pub use registry::Registry;
pub use group::{first_stuck, note_topic, registered_pairs, LearningGroup};
pub use tutor::{TeachingMoment, Tutor};
