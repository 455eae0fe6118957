//! What the user does on the keyboard: taps (press or release, short or
//! long) and swipes.
use vstd::prelude::*;

verus! {

/// Differentiates a press from a release of a key.
#[derive(Debug, Clone, Copy, PartialEq, Eq, Hash, Structural)]
pub enum TapMotion {
    Press,
    Release,
}

/// Duration of a tap.
#[derive(Debug, Clone, Copy, PartialEq, Eq, Hash, Structural)]
pub enum TapDuration {
    Short,
    Long,
}

/// The phases of a swipe.
#[derive(Debug, Clone, Copy, PartialEq, Eq, Hash, Structural)]
pub enum SwipeAction {
    Begin,
    Update,
    Finish,
}

/// An interaction the user interface reports to the keyboard: a tap (the
/// finger touches or leaves the surface without moving) or a swipe (the
/// finger moves while touching).
#[derive(Debug, Clone, Copy, PartialEq, Eq, Hash, Structural)]
pub enum Interaction {
    Tap(TapDuration, TapMotion),
    Swipe(SwipeAction),
}

impl TapMotion {
    /// The number the motion stands for: 1 for a press, 0 for a release.
    pub fn value(self) -> (r: u32)
        ensures
            r == (if self == TapMotion::Press {
                1u32
            } else {
                0u32
            }),
    {
        match self {
            TapMotion::Press => 1,
            TapMotion::Release => 0,
        }
    }
}

/// The printable name of an interaction.
pub open spec fn interaction_name(i: Interaction) -> Seq<char> {
    match i {
        Interaction::Tap(TapDuration::Short, TapMotion::Press) => "ShortPress"@,
        Interaction::Tap(TapDuration::Short, TapMotion::Release) => "ShortRelease"@,
        Interaction::Tap(TapDuration::Long, TapMotion::Press) => "LongPress"@,
        Interaction::Tap(TapDuration::Long, TapMotion::Release) => "LongRelease"@,
        Interaction::Swipe(SwipeAction::Begin) => "SwipeBegin"@,
        Interaction::Swipe(SwipeAction::Update) => "SwipeUpdate"@,
        Interaction::Swipe(SwipeAction::Finish) => "SwipeFinish"@,
    }
}

impl Interaction {
    /// The interaction in printable form, e.g. `ShortPress` or `SwipeBegin`.
    pub fn to_display_string(&self) -> (r: String)
        ensures
            r@ == interaction_name(*self),
    {
        match self {
            Interaction::Tap(TapDuration::Short, TapMotion::Press) => "ShortPress".to_string(),
            Interaction::Tap(TapDuration::Short, TapMotion::Release) => "ShortRelease".to_string(),
            Interaction::Tap(TapDuration::Long, TapMotion::Press) => "LongPress".to_string(),
            Interaction::Tap(TapDuration::Long, TapMotion::Release) => "LongRelease".to_string(),
            Interaction::Swipe(SwipeAction::Begin) => "SwipeBegin".to_string(),
            Interaction::Swipe(SwipeAction::Update) => "SwipeUpdate".to_string(),
            Interaction::Swipe(SwipeAction::Finish) => "SwipeFinish".to_string(),
        }
    }
}

} // verus!
