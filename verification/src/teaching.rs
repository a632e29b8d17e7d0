//! How the tutor answers an attempt: the style it teaches in, and the
//! intervention it makes for each outcome.

use vstd::prelude::*;
use crate::kinds::{IterationOutcome, TeachingKind, TutorStyle, VelocityTrend};

verus! {

/// The style the tutor teaches in on an attempt: an adaptive tutor asks
/// questions of a learner on the rise, guides a learner who is falling back,
/// and lets a steady learner experiment; any other style stays as it is.
pub open spec fn style_for(style: TutorStyle, trend: VelocityTrend) -> TutorStyle {
    match style {
        TutorStyle::Adaptive => match trend {
            VelocityTrend::Rising => TutorStyle::Socratic,
            VelocityTrend::Falling => TutorStyle::Guide,
            VelocityTrend::Steady => TutorStyle::Experimental,
        },
        other => other,
    }
}

/// Picks the style the tutor teaches in, given the learner's trend.
pub fn effective_style(style: TutorStyle, trend: VelocityTrend) -> (s: TutorStyle)
    ensures
        s == style_for(style, trend),
{
    match style {
        TutorStyle::Adaptive => match trend {
            VelocityTrend::Rising => TutorStyle::Socratic,
            VelocityTrend::Falling => TutorStyle::Guide,
            VelocityTrend::Steady => TutorStyle::Experimental,
        },
        other => other,
    }
}

/// The kind of intervention for an outcome taught in a style.
pub open spec fn kind_for(outcome: IterationOutcome, style: TutorStyle) -> TeachingKind {
    match outcome {
        IterationOutcome::Breakthrough => TeachingKind::Celebration,
        IterationOutcome::Stuck => match style {
            TutorStyle::Guide => TeachingKind::Hint,
            TutorStyle::Socratic => TeachingKind::Redirect,
            _ => TeachingKind::Patience,
        },
        IterationOutcome::Plateau => TeachingKind::Connection,
        IterationOutcome::Progress => match style {
            TutorStyle::Socratic => TeachingKind::Deepen,
            _ => TeachingKind::LevelUp,
        },
    }
}

/// The text before the topic in the message for an outcome and style.
pub open spec fn message_head(outcome: IterationOutcome, style: TutorStyle) -> Seq<char> {
    match outcome {
        IterationOutcome::Breakthrough => "Yes! You just cracked "@,
        IterationOutcome::Stuck => match style {
            TutorStyle::Guide => "Having trouble with "@,
            TutorStyle::Socratic => "What do you think is happening with "@,
            _ => "This is a hard one. Sit with "@,
        },
        IterationOutcome::Plateau => "You've been working on "@,
        IterationOutcome::Progress => match style {
            TutorStyle::Socratic => "Good progress on "@,
            _ => "Nice work on "@,
        },
    }
}

/// The text after the topic in the message for an outcome and style.
pub open spec fn message_tail(outcome: IterationOutcome, style: TutorStyle) -> Seq<char> {
    match outcome {
        IterationOutcome::Breakthrough => "! That's a breakthrough."@,
        IterationOutcome::Stuck => match style {
            TutorStyle::Guide => "? Try breaking it into smaller pieces."@,
            TutorStyle::Socratic => "? What would happen if...?"@,
            _ => " for a moment. The confusion means you're learning."@,
        },
        IterationOutcome::Plateau => " for a while. Remember what worked with similar problems?"@,
        IterationOutcome::Progress => match style {
            TutorStyle::Socratic => "! But why does it work? Can you prove it?"@,
            _ => "! Ready for the next challenge?"@,
        },
    }
}

/// The message for an outcome and style on a topic: the topic framed by
/// the head and the tail of that message.
pub open spec fn message_for(outcome: IterationOutcome, style: TutorStyle, topic: Seq<char>) -> Seq<char> {
    message_head(outcome, style) + topic + message_tail(outcome, style)
}

/// The hint that follows the message, where there is one.
pub open spec fn hint_for(outcome: IterationOutcome, style: TutorStyle, topic: Seq<char>) -> Option<Seq<char>> {
    match outcome {
        IterationOutcome::Breakthrough => Some("You're ready to go deeper with "@ + topic + "."@),
        IterationOutcome::Stuck => match style {
            TutorStyle::Guide => Some("What's the simplest version of this problem?"@),
            TutorStyle::Socratic => Some("Think about conservation \u{2014} what's preserved here?"@),
            _ => None,
        },
        IterationOutcome::Plateau => Some("Try connecting this to something you already understand well."@),
        IterationOutcome::Progress => match style {
            TutorStyle::Socratic => None,
            _ => Some("The next level adds a twist..."@),
        },
    }
}

/// The tutor's intervention on one attempt.
pub struct Teaching {
    pub kind: TeachingKind,
    pub message: String,
    pub next_hint: Option<String>,
}

/// The hint text, read as characters.
pub open spec fn hint_view(hint: Option<String>) -> Option<Seq<char>> {
    match hint {
        Some(h) => Some(h@),
        None => None,
    }
}

fn framed(head: &str, topic: &str, tail: &str) -> (s: String)
    ensures
        s@ == head@ + topic@ + tail@,
{
    let mut s = String::from_str(head);
    s.append(topic);
    s.append(tail);
    s
}

fn plain(text: &str) -> (s: Option<String>)
    ensures
        s matches Some(t) && t@ == text@,
{
    Some(String::from_str(text))
}

/// Composes the intervention for an outcome taught in a style on a topic.
pub fn compose_teaching(outcome: IterationOutcome, style: TutorStyle, topic: &str) -> (t: Teaching)
    ensures
        t.kind == kind_for(outcome, style),
        t.message@ == message_for(outcome, style, topic@),
        hint_view(t.next_hint) == hint_for(outcome, style, topic@),
{
    match outcome {
        IterationOutcome::Breakthrough => Teaching {
            kind: TeachingKind::Celebration,
            message: framed("Yes! You just cracked ", topic, "! That's a breakthrough."),
            next_hint: Some(framed("You're ready to go deeper with ", topic, ".")),
        },
        IterationOutcome::Stuck => match style {
            TutorStyle::Guide => Teaching {
                kind: TeachingKind::Hint,
                message: framed("Having trouble with ", topic, "? Try breaking it into smaller pieces."),
                next_hint: plain("What's the simplest version of this problem?"),
            },
            TutorStyle::Socratic => Teaching {
                kind: TeachingKind::Redirect,
                message: framed("What do you think is happening with ", topic, "? What would happen if...?"),
                next_hint: plain("Think about conservation \u{2014} what's preserved here?"),
            },
            _ => Teaching {
                kind: TeachingKind::Patience,
                message: framed("This is a hard one. Sit with ", topic, " for a moment. The confusion means you're learning."),
                next_hint: None,
            },
        },
        IterationOutcome::Plateau => Teaching {
            kind: TeachingKind::Connection,
            message: framed("You've been working on ", topic, " for a while. Remember what worked with similar problems?"),
            next_hint: plain("Try connecting this to something you already understand well."),
        },
        IterationOutcome::Progress => match style {
            TutorStyle::Socratic => Teaching {
                kind: TeachingKind::Deepen,
                message: framed("Good progress on ", topic, "! But why does it work? Can you prove it?"),
                next_hint: None,
            },
            _ => Teaching {
                kind: TeachingKind::LevelUp,
                message: framed("Nice work on ", topic, "! Ready for the next challenge?"),
                next_hint: plain("The next level adds a twist..."),
            },
        },
    }
}

/// The tutor's answer to an attempt: the intervention for its outcome,
/// taught in the style the tutor picks for the learner's trend.
pub fn respond(style: TutorStyle, trend: VelocityTrend, outcome: IterationOutcome, topic: &str) -> (t: Teaching)
    ensures
        t.kind == kind_for(outcome, style_for(style, trend)),
        t.message@ == message_for(outcome, style_for(style, trend), topic@),
        hint_view(t.next_hint) == hint_for(outcome, style_for(style, trend), topic@),
{
    let effective = effective_style(style, trend);
    compose_teaching(outcome, effective, topic)
}

/// An adaptive tutor always settles on a concrete style, and a tutor with a
/// concrete style keeps it whatever the learner's trend.
pub proof fn law_style_is_concrete(style: TutorStyle, trend: VelocityTrend)
    ensures
        style_for(style, trend) != TutorStyle::Adaptive,
        style != TutorStyle::Adaptive ==> style_for(style, trend) == style,
{
}

/// A breakthrough is celebrated in every style, and its hint invites the
/// learner to go deeper into the same topic.
pub proof fn law_breakthrough_celebrated(style: TutorStyle, topic: Seq<char>)
    ensures
        kind_for(IterationOutcome::Breakthrough, style) == TeachingKind::Celebration,
        hint_for(IterationOutcome::Breakthrough, style, topic) is Some,
{
}

/// A learner who is stuck gets a hint from a guide, a redirecting question
/// from a Socratic tutor, and patience otherwise.
pub proof fn law_stuck_answers(style: TutorStyle)
    ensures
        kind_for(IterationOutcome::Stuck, style) == (match style {
            TutorStyle::Guide => TeachingKind::Hint,
            TutorStyle::Socratic => TeachingKind::Redirect,
            _ => TeachingKind::Patience,
        }),
{
}

/// Every message names its topic: the topic stands in the message, whole,
/// right after the message's head.
pub proof fn law_message_names_topic(outcome: IterationOutcome, style: TutorStyle, topic: Seq<char>)
    ensures
        ({
            let m = message_for(outcome, style, topic);
            let at = message_head(outcome, style).len() as int;
            at + topic.len() <= m.len() && m.subrange(at, at + topic.len()) == topic
        }),
{
    let m = message_for(outcome, style, topic);
    let at = message_head(outcome, style).len() as int;
    assert(m.subrange(at, at + topic.len()) =~= topic);
}

/// No intervention is ever a call to collaborate: collaboration is offered
/// only by the friend-finding path.
pub proof fn law_no_collaborate_teaching(outcome: IterationOutcome, style: TutorStyle)
    ensures
        kind_for(outcome, style) != TeachingKind::Collaborate,
{
}

/// The style the tutor teaches in, in full: an adaptive tutor questions a
/// rising learner, guides a falling one and lets a steady one experiment;
/// every other style is kept whatever the trend.
pub proof fn law_style_table(trend: VelocityTrend)
    ensures
        style_for(TutorStyle::Adaptive, VelocityTrend::Rising) == TutorStyle::Socratic,
        style_for(TutorStyle::Adaptive, VelocityTrend::Falling) == TutorStyle::Guide,
        style_for(TutorStyle::Adaptive, VelocityTrend::Steady) == TutorStyle::Experimental,
        style_for(TutorStyle::Guide, trend) == TutorStyle::Guide,
        style_for(TutorStyle::Socratic, trend) == TutorStyle::Socratic,
        style_for(TutorStyle::Experimental, trend) == TutorStyle::Experimental,
{
}

/// The tutor's answer to each outcome, in every style and on every topic:
/// its kind, its message and its hint.
pub proof fn law_answer_table(style: TutorStyle, topic: Seq<char>)
    ensures
        kind_for(IterationOutcome::Breakthrough, style) == TeachingKind::Celebration,
        message_for(IterationOutcome::Breakthrough, style, topic)
            == "Yes! You just cracked "@ + topic + "! That's a breakthrough."@,
        hint_for(IterationOutcome::Breakthrough, style, topic)
            == Some("You're ready to go deeper with "@ + topic + "."@),

        kind_for(IterationOutcome::Plateau, style) == TeachingKind::Connection,
        message_for(IterationOutcome::Plateau, style, topic)
            == "You've been working on "@ + topic + " for a while. Remember what worked with similar problems?"@,
        hint_for(IterationOutcome::Plateau, style, topic)
            == Some("Try connecting this to something you already understand well."@),

        style == TutorStyle::Socratic ==> {
            &&& kind_for(IterationOutcome::Progress, style) == TeachingKind::Deepen
            &&& message_for(IterationOutcome::Progress, style, topic)
                == "Good progress on "@ + topic + "! But why does it work? Can you prove it?"@
            &&& hint_for(IterationOutcome::Progress, style, topic) == None::<Seq<char>>
            &&& kind_for(IterationOutcome::Stuck, style) == TeachingKind::Redirect
            &&& message_for(IterationOutcome::Stuck, style, topic)
                == "What do you think is happening with "@ + topic + "? What would happen if...?"@
            &&& hint_for(IterationOutcome::Stuck, style, topic)
                == Some("Think about conservation \u{2014} what's preserved here?"@)
        },
        style != TutorStyle::Socratic ==> {
            &&& kind_for(IterationOutcome::Progress, style) == TeachingKind::LevelUp
            &&& message_for(IterationOutcome::Progress, style, topic)
                == "Nice work on "@ + topic + "! Ready for the next challenge?"@
            &&& hint_for(IterationOutcome::Progress, style, topic) == Some("The next level adds a twist..."@)
        },
        style == TutorStyle::Guide ==> {
            &&& kind_for(IterationOutcome::Stuck, style) == TeachingKind::Hint
            &&& message_for(IterationOutcome::Stuck, style, topic)
                == "Having trouble with "@ + topic + "? Try breaking it into smaller pieces."@
            &&& hint_for(IterationOutcome::Stuck, style, topic)
                == Some("What's the simplest version of this problem?"@)
        },
        style == TutorStyle::Experimental || style == TutorStyle::Adaptive ==> {
            &&& kind_for(IterationOutcome::Stuck, style) == TeachingKind::Patience
            &&& message_for(IterationOutcome::Stuck, style, topic)
                == "This is a hard one. Sit with "@ + topic + " for a moment. The confusion means you're learning."@
            &&& hint_for(IterationOutcome::Stuck, style, topic) == None::<Seq<char>>
        },
{
}

/// The hint of a moment, read as characters: its text where there is one.
pub proof fn law_hint_view(hint: Option<String>)
    ensures
        hint is None ==> hint_view(hint) == None::<Seq<char>>,
        hint matches Some(h) ==> hint_view(hint) == Some(h@),
{
}

} // verus!
