//! Turns the raw kinds of touch input into the kind of interaction they
//! complete, from the kind of input that came before.
use vstd::prelude::*;

verus! {

/// A kind of touch input. A move carries the time it happened, in
/// milliseconds.
#[derive(Debug, PartialEq, Eq, Structural)]
pub enum InputType {
    Press,
    LongPress,
    Move(u64),
    Release,
}

impl InputType {
    /// Whether the input is a move.
    pub fn is_move(&self) -> (r: bool)
        ensures
            r == (*self is Move),
    {
        match self {
            InputType::Move(_) => true,
            _ => false,
        }
    }
}

/// The kind of interaction an input completes.
#[derive(Debug, PartialEq, Eq, Structural)]
pub enum OutputType {
    ShortPress,
    ShortPressRelease,
    LongPress,
    LongPressRelease,
    Swipe,
    SwipeRelease,
}

/// What an input means after the input `prev`: a press after a release is
/// a short press; a long press after a press or a move is a long press; a
/// release ends a short press, a swipe or a long press, depending on what
/// came before; a move is a swipe. Every other sequence is unexpected and
/// counts as the release of a short press.
pub open spec fn output_for(prev: InputType, input: InputType) -> OutputType {
    if prev == InputType::Release && input == InputType::Press {
        OutputType::ShortPress
    } else if prev == InputType::Press && input == InputType::LongPress {
        OutputType::LongPress
    } else if prev == InputType::Press && input == InputType::Release {
        OutputType::ShortPressRelease
    } else if prev is Move && input == InputType::Release {
        OutputType::SwipeRelease
    } else if prev is Move && input == InputType::LongPress {
        OutputType::LongPress
    } else if prev == InputType::LongPress && input == InputType::Release {
        OutputType::LongPressRelease
    } else if input is Move {
        OutputType::Swipe
    } else {
        OutputType::ShortPressRelease
    }
}

/// Remembers the previous input.
pub struct InputHandler {
    prev_input_type: InputType,
}

impl View for InputHandler {
    type V = InputType;

    closed spec fn view(&self) -> InputType {
        self.prev_input_type
    }
}

impl InputHandler {
    /// A handler whose previous input is a release.
    pub fn new() -> (r: InputHandler)
        ensures
            r@ == InputType::Release,
    {
        InputHandler { prev_input_type: InputType::Release }
    }

    /// The interaction the input completes; the input becomes the previous
    /// input.
    pub fn input(&mut self, input: InputType) -> (r: OutputType)
        ensures
            r == output_for(old(self)@, input),
            final(self)@ == input,
    {
        let prev_is_release = match self.prev_input_type {
            InputType::Release => true,
            _ => false,
        };
        let prev_is_press = match self.prev_input_type {
            InputType::Press => true,
            _ => false,
        };
        let prev_is_long_press = match self.prev_input_type {
            InputType::LongPress => true,
            _ => false,
        };
        let input_is_press = match input {
            InputType::Press => true,
            _ => false,
        };
        let input_is_long_press = match input {
            InputType::LongPress => true,
            _ => false,
        };
        let input_is_release = match input {
            InputType::Release => true,
            _ => false,
        };
        let output_type = if prev_is_release && input_is_press {
            OutputType::ShortPress
        } else if prev_is_press && input_is_long_press {
            OutputType::LongPress
        } else if prev_is_press && input_is_release {
            OutputType::ShortPressRelease
        } else if self.prev_input_type.is_move() && input_is_release {
            OutputType::SwipeRelease
        } else if self.prev_input_type.is_move() && input_is_long_press {
            OutputType::LongPress
        } else if prev_is_long_press && input_is_release {
            OutputType::LongPressRelease
        } else if input.is_move() {
            OutputType::Swipe
        } else {
            OutputType::ShortPressRelease
        };
        self.prev_input_type = input;
        output_type
    }
}

} // verus!
