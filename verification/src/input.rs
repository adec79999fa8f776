//! Input events as plain values, and the actions they stand for.
//!
//! An [`InputEvent`] holds what the windowing layer reports, reduced to
//! the fields that matter here. [`action_of`] reads an event as one of the
//! few things a user can ask for.

use vstd::prelude::*;

verus! {

/// Key code of the Escape key.
pub const SDLK_ESCAPE: i32 = 27;

/// Key code of the space bar.
pub const SDLK_SPACE: i32 = 32;

/// Key code of the up arrow.
pub const SDLK_UP: i32 = 1073741906;

/// Key code of the down arrow.
pub const SDLK_DOWN: i32 = 1073741905;

/// A button of the pointing device.
#[derive(Clone, Copy, Debug, PartialEq, Eq, Structural)]
pub enum MouseButton {
    Unknown,
    Left,
    Middle,
    Right,
    X1,
    X2,
}

/// The sense of a wheel motion.
#[derive(Clone, Copy, Debug, PartialEq, Eq, Structural)]
pub enum MouseWheelDirection {
    Normal,
    Flipped,
    Unknown(u32),
}

/// One event from the windowing layer.
#[derive(Clone, Copy, Debug, PartialEq, Eq, Structural)]
pub enum InputEvent {
    /// The window was asked to close.
    Quit,
    /// A key went down; `keycode` is its code, if it has one.
    KeyDown { keycode: Option<i32> },
    /// A pointer button went down at pixel `(x, y)` of the window.
    MouseButtonDown { mouse_btn: MouseButton, x: i32, y: i32 },
    /// The wheel moved by `y` notches.
    MouseWheel { y: i32, direction: MouseWheelDirection },
    /// Anything else.
    Other,
}

/// What an event asks for.
#[derive(Clone, Copy, Debug, PartialEq, Eq, Structural)]
pub enum Action {
    /// End the session.
    Quit,
    /// Switch between editing and running.
    Toggle,
    /// Make the simulation step more often.
    SpeedUp,
    /// Make the simulation step less often.
    SlowDown,
    /// Set the cell under pixel `(x, y)` alive or dead.
    Paint { alive: bool, x: i32, y: i32 },
    /// Nothing.
    Ignore,
}

/// The action that a key code stands for.
pub open spec fn key_action(code: i32) -> Action {
    if code == SDLK_ESCAPE {
        Action::Quit
    } else if code == SDLK_SPACE {
        Action::Toggle
    } else if code == SDLK_UP {
        Action::SpeedUp
    } else if code == SDLK_DOWN {
        Action::SlowDown
    } else {
        Action::Ignore
    }
}

/// The action that an event stands for.
///
/// Closing the window and Escape quit; space toggles; the up arrow and a
/// forward wheel notch speed up; the down arrow and a backward notch slow
/// down; the left button paints a cell alive and the right button paints
/// it dead. A wheel that reports in any sense but the normal one, and
/// every other event, is ignored.
pub open spec fn spec_action_of(event: InputEvent) -> Action {
    match event {
        InputEvent::Quit => Action::Quit,
        InputEvent::KeyDown { keycode: Some(code) } => key_action(code),
        InputEvent::KeyDown { keycode: None } => Action::Ignore,
        InputEvent::MouseButtonDown { mouse_btn: MouseButton::Left, x, y } => Action::Paint {
            alive: true,
            x,
            y,
        },
        InputEvent::MouseButtonDown { mouse_btn: MouseButton::Right, x, y } => Action::Paint {
            alive: false,
            x,
            y,
        },
        InputEvent::MouseButtonDown { .. } => Action::Ignore,
        InputEvent::MouseWheel { y, direction: MouseWheelDirection::Normal } => if y > 0 {
            Action::SpeedUp
        } else if y < 0 {
            Action::SlowDown
        } else {
            Action::Ignore
        },
        InputEvent::MouseWheel { .. } => Action::Ignore,
        InputEvent::Other => Action::Ignore,
    }
}

/// Reads an event as an action.
#[verifier::when_used_as_spec(spec_action_of)]
pub fn action_of(event: InputEvent) -> (action: Action)
    ensures
        action == spec_action_of(event),
{
    match event {
        InputEvent::Quit => Action::Quit,
        InputEvent::KeyDown { keycode } => match keycode {
            None => Action::Ignore,
            Some(code) => {
                if code == SDLK_ESCAPE {
                    Action::Quit
                } else if code == SDLK_SPACE {
                    Action::Toggle
                } else if code == SDLK_UP {
                    Action::SpeedUp
                } else if code == SDLK_DOWN {
                    Action::SlowDown
                } else {
                    Action::Ignore
                }
            },
        },
        InputEvent::MouseButtonDown { mouse_btn, x, y } => match mouse_btn {
            MouseButton::Left => Action::Paint { alive: true, x, y },
            MouseButton::Right => Action::Paint { alive: false, x, y },
            _ => Action::Ignore,
        },
        InputEvent::MouseWheel { y, direction } => match direction {
            MouseWheelDirection::Normal => {
                if y > 0 {
                    Action::SpeedUp
                } else if y < 0 {
                    Action::SlowDown
                } else {
                    Action::Ignore
                }
            },
            _ => Action::Ignore,
        },
        InputEvent::Other => Action::Ignore,
    }
}

} // verus!
