use vstd::prelude::*;

use crate::token_based_config::PhysicalButtonName;

verus! {

/// Lifecycle phase of one button's intent evaluation.
#[derive(Debug, Clone, Copy, PartialEq, Eq, Structural)]
#[allow(clippy::upper_case_acronyms)]
pub enum ButtonState {
    /// No recent activity.
    IDLE,
    /// First signal seen; the intent is not decided yet.
    EVALUATING,
    /// The button is being held down.
    HELD,
    /// The button is being released.
    RELEASING,
}

/// Semantic event produced by the intent classifier.
#[derive(Debug, Clone, Copy, PartialEq, Eq, Structural)]
#[allow(clippy::upper_case_acronyms)]
pub enum ButtonEventType {
    PRESSED,
    HELD,
    /// The button is being released (transition event).
    RELEASING,
}

impl ButtonEventType {
    /// The configuration key under which actions for this event are listed.
    pub open spec fn spec_name(self) -> Seq<char> {
        match self {
            ButtonEventType::PRESSED => "PRESSED"@,
            ButtonEventType::HELD => "HELD"@,
            ButtonEventType::RELEASING => "RELEASING"@,
        }
    }

    pub fn as_str(&self) -> (r: &str)
        ensures
            r@ == self.spec_name(),
    {
        match self {
            ButtonEventType::PRESSED => "PRESSED",
            ButtonEventType::HELD => "HELD",
            ButtonEventType::RELEASING => "RELEASING",
        }
    }
}

/// An event for one physical button.
#[derive(Debug, Clone, Copy, PartialEq, Eq, Structural)]
pub struct ButtonEvent {
    pub button_name: PhysicalButtonName,
    pub event_type: ButtonEventType,
}

/// One observed signal for one physical button.
#[derive(Debug, Clone, Copy, PartialEq, Eq, Structural)]
pub struct ButtonInput {
    pub button_name: PhysicalButtonName,
    pub is_pressed: bool,
}

} // verus!
