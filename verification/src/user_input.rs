//! User input as plain data: joystick deflection and pressed buttons.
//!
//! The gamepad hardware is read outside the core; what arrives here is
//! the last joystick position, in fixed-point units within `[-1, 1]`, and
//! the last face button pressed.

use vstd::prelude::*;

verus! {

/// The face buttons of the gamepad that the robot reacts to.
#[derive(Debug, PartialEq, Eq, Structural, Copy, Clone)]
pub enum Button {
    South,
    West,
    East,
    North,
}

/// One snapshot of the user's input: the joystick deflection `(jx, jy)`
/// if a gamepad is connected, and the face button currently pressed, if
/// any.
#[derive(Debug)]
pub struct UserInput {
    pub joystick: Option<(i64, i64)>,
    pub btn: Option<Button>,
}

impl UserInput {
    pub fn new(joystick: Option<(i64, i64)>, btn: Option<Button>) -> (u: UserInput)
        ensures
            u.joystick == joystick,
            u.btn == btn,
    {
        UserInput { joystick, btn }
    }

    /// An input with nothing deflected and nothing pressed.
    pub fn idle() -> (u: UserInput)
        ensures
            u.joystick is None,
            u.btn is None,
    {
        UserInput { joystick: None, btn: None }
    }

    /// Whether the given button is the one being pressed.
    pub fn is_pressed(&self, btn: Button) -> (r: bool)
        ensures
            r == (self.btn == Some(btn)),
    {
        match self.btn {
            Some(b) => b == btn,
            None => false,
        }
    }
}

impl Default for UserInput {
    /// The default input is idle.
    fn default() -> (u: UserInput)
        ensures
            u.joystick is None,
            u.btn is None,
    {
        UserInput::idle()
    }
}

} // verus!
