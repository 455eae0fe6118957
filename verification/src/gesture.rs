//! Turns the touch signals of the user interface into interactions, and
//! keeps the points of the current swipe.
use vstd::prelude::*;
use crate::interaction::{Interaction, SwipeAction, TapDuration, TapMotion};

verus! {

/// Signals the user interface reports.
#[derive(Debug, Clone, Copy, PartialEq, Eq, Hash, Structural)]
pub enum GestureSignal {
    DragBegin,
    DragUpdate,
    DragEnd,
    LongPress,
}

/// What the signals so far were taken to be.
#[derive(Debug, Clone, Copy, PartialEq, Eq, Hash, Structural)]
pub enum GestureInterpretation {
    NoGesture,
    LongPress,
    Swipe,
}

/// The state of a gesture model: the interpretation of the signals so far
/// and the points of the current swipe.
pub struct GestureState<P> {
    pub interpretation: GestureInterpretation,
    pub swipe_path: Seq<P>,
}

/// What a signal at `point` does. The beginning of a drag is a short press;
/// a long press is a long press; a drag update adds the point to the swipe
/// path and begins a swipe, or updates it if one is under way; the end of a
/// drag clears the path and releases what was under way (a short press, a
/// long press, or a swipe), after which no gesture is under way.
pub open spec fn gesture_step<P>(st: GestureState<P>, point: P, input: GestureSignal) -> (
    GestureState<P>,
    Interaction,
) {
    match input {
        GestureSignal::DragBegin => (st, Interaction::Tap(TapDuration::Short, TapMotion::Press)),
        GestureSignal::LongPress => (
            GestureState { interpretation: GestureInterpretation::LongPress, ..st },
            Interaction::Tap(TapDuration::Long, TapMotion::Press),
        ),
        GestureSignal::DragUpdate => (
            GestureState {
                interpretation: GestureInterpretation::Swipe,
                swipe_path: st.swipe_path.push(point),
            },
            if st.interpretation == GestureInterpretation::Swipe {
                Interaction::Swipe(SwipeAction::Update)
            } else {
                Interaction::Swipe(SwipeAction::Begin)
            },
        ),
        GestureSignal::DragEnd => (
            GestureState { interpretation: GestureInterpretation::NoGesture, swipe_path: Seq::empty() },
            match st.interpretation {
                GestureInterpretation::NoGesture => Interaction::Tap(
                    TapDuration::Short,
                    TapMotion::Release,
                ),
                GestureInterpretation::LongPress => Interaction::Tap(
                    TapDuration::Long,
                    TapMotion::Release,
                ),
                GestureInterpretation::Swipe => Interaction::Swipe(SwipeAction::Finish),
            },
        ),
    }
}

/// Converts the signals of user input into interactions and stores the
/// points of the swipe path.
pub struct GestureModel<P> {
    prev_interpretation: GestureInterpretation,
    swipe_path: Vec<P>,
}

impl<P> View for GestureModel<P> {
    type V = GestureState<P>;

    closed spec fn view(&self) -> GestureState<P> {
        GestureState { interpretation: self.prev_interpretation, swipe_path: self.swipe_path@ }
    }
}

impl<P> GestureModel<P> {
    /// A model with no gesture under way and an empty path.
    pub fn new() -> (r: GestureModel<P>)
        ensures
            r@ == (GestureState::<P> {
                interpretation: GestureInterpretation::NoGesture,
                swipe_path: Seq::empty(),
            }),
    {
        let r = GestureModel { prev_interpretation: GestureInterpretation::NoGesture, swipe_path: Vec::new() };
        assert(r@.swipe_path =~= Seq::<P>::empty());
        r
    }

    /// Converts the signal that happened at `point` into an interaction.
    pub fn convert_to_interaction(&mut self, point: P, input: GestureSignal) -> (r: Interaction)
        ensures
            (final(self)@, r) == gesture_step(old(self)@, point, input),
    {
        match input {
            GestureSignal::DragBegin => Interaction::Tap(TapDuration::Short, TapMotion::Press),
            GestureSignal::LongPress => {
                self.prev_interpretation = GestureInterpretation::LongPress;
                Interaction::Tap(TapDuration::Long, TapMotion::Press)
            },
            GestureSignal::DragUpdate => {
                self.swipe_path.push(point);
                match self.prev_interpretation {
                    GestureInterpretation::NoGesture | GestureInterpretation::LongPress => {
                        self.prev_interpretation = GestureInterpretation::Swipe;
                        Interaction::Swipe(SwipeAction::Begin)
                    },
                    GestureInterpretation::Swipe => Interaction::Swipe(SwipeAction::Update),
                }
            },
            GestureSignal::DragEnd => {
                self.swipe_path = Vec::new();
                let new_interaction = match self.prev_interpretation {
                    GestureInterpretation::NoGesture => Interaction::Tap(
                        TapDuration::Short,
                        TapMotion::Release,
                    ),
                    GestureInterpretation::LongPress => Interaction::Tap(
                        TapDuration::Long,
                        TapMotion::Release,
                    ),
                    GestureInterpretation::Swipe => Interaction::Swipe(SwipeAction::Finish),
                };
                self.prev_interpretation = GestureInterpretation::NoGesture;
                assert(self@.swipe_path =~= Seq::<P>::empty());
                new_interaction
            },
        }
    }

    /// The points of the current swipe, oldest first.
    pub fn get_swipe_path(&self) -> (r: &Vec<P>)
        ensures
            r@ == self@.swipe_path,
    {
        &self.swipe_path
    }
}

/// Every drag ends in a release of what it was: after the end of a drag no
/// gesture is under way and the path is empty, whatever came before; a
/// long press followed by the end of the drag is a long release, a drag
/// update followed by it is the end of a swipe, a drag with neither is a
/// short release.
pub proof fn lemma_drag_end_releases<P>(st: GestureState<P>, p: P, q: P)
    ensures
        gesture_step(st, p, GestureSignal::DragEnd).0 == (GestureState::<P> {
            interpretation: GestureInterpretation::NoGesture,
            swipe_path: Seq::empty(),
        }),
        gesture_step(gesture_step(st, p, GestureSignal::LongPress).0, q, GestureSignal::DragEnd).1
            == Interaction::Tap(TapDuration::Long, TapMotion::Release),
        gesture_step(gesture_step(st, p, GestureSignal::DragUpdate).0, q, GestureSignal::DragEnd).1
            == Interaction::Swipe(SwipeAction::Finish),
        st.interpretation == GestureInterpretation::NoGesture ==> gesture_step(
            gesture_step(st, p, GestureSignal::DragBegin).0,
            q,
            GestureSignal::DragEnd,
        ).1 == Interaction::Tap(TapDuration::Short, TapMotion::Release),
{
}

/// A swipe begins once: the first drag update begins it, every further one
/// updates it.
pub proof fn lemma_swipe_begins_once<P>(st: GestureState<P>, p: P, q: P)
    ensures
        gesture_step(gesture_step(st, p, GestureSignal::DragUpdate).0, q, GestureSignal::DragUpdate).1
            == Interaction::Swipe(SwipeAction::Update),
        st.interpretation != GestureInterpretation::Swipe ==> gesture_step(
            st,
            p,
            GestureSignal::DragUpdate,
        ).1 == Interaction::Swipe(SwipeAction::Begin),
{
}

} // verus!
