//! Deciders: from user input to the robot's next action.

use crate::actions::Action;
use crate::fixed::FIX_ONE;
use crate::user_input::UserInput;
use vstd::prelude::*;

verus! {

/// Picks the robot's next action from the latest user input.
pub trait Decider: Sized {
    /// The inputs the decider accepts.
    spec fn input_ok(&self, user_input: UserInput) -> bool;

    /// The action the decider picks for a given input.
    spec fn decide_spec(&self, user_input: UserInput) -> Action;

    fn decide(&mut self, user_input: &UserInput) -> (a: Action)
        requires
            old(self).input_ok(*user_input),
        ensures
            a == old(self).decide_spec(*user_input),
    ;
}

/// The decider that never moves the robot.
pub struct AlwaysIdle;

impl AlwaysIdle {
    pub fn new() -> AlwaysIdle {
        AlwaysIdle
    }
}

impl Decider for AlwaysIdle {
    open spec fn input_ok(&self, user_input: UserInput) -> bool {
        true
    }

    open spec fn decide_spec(&self, user_input: UserInput) -> Action {
        Action::Idle
    }

    fn decide(&mut self, user_input: &UserInput) -> (a: Action) {
        Action::Idle
    }
}

/// A value clipped into `[-1, 1]` in fixed-point units.
pub open spec fn clip_unit(v: int) -> int {
    if v > FIX_ONE as int {
        FIX_ONE as int
    } else if v < -(FIX_ONE as int) {
        -(FIX_ONE as int)
    } else {
        v
    }
}

/// The differential-drive mix: the left motor gets `jx + jy`, the right
/// motor `jy - jx`, each clipped into `[-1, 1]`.
pub open spec fn follow_joystick_spec(user_input: UserInput) -> Action {
    match user_input.joystick {
        Some((jx, jy)) => Action::Drive(
            clip_unit(jx as int + jy as int) as i64,
            clip_unit(jy as int - jx as int) as i64,
        ),
        None => Action::Idle,
    }
}

/// The decider that steers the robot by the joystick, mixing the two
/// axes into differential motor speeds.
pub struct FollowJoystick;

impl FollowJoystick {
    pub fn new() -> FollowJoystick {
        FollowJoystick
    }
}

fn clip_unit_exec(v: i64) -> (r: i64)
    requires
        -0x10000000000 <= v <= 0x10000000000,
    ensures
        r as int == clip_unit(v as int),
{
    if v > FIX_ONE {
        FIX_ONE
    } else if v < -FIX_ONE {
        -FIX_ONE
    } else {
        v
    }
}

impl Decider for FollowJoystick {
    /// The joystick reports unit deflections, so both axes stay within
    /// one in fixed-point units.
    open spec fn input_ok(&self, user_input: UserInput) -> bool {
        match user_input.joystick {
            Some((jx, jy)) => -FIX_ONE <= jx <= FIX_ONE && -FIX_ONE <= jy <= FIX_ONE,
            None => true,
        }
    }

    open spec fn decide_spec(&self, user_input: UserInput) -> Action {
        follow_joystick_spec(user_input)
    }

    fn decide(&mut self, user_input: &UserInput) -> (a: Action) {
        match user_input.joystick {
            Some(joystick_data) => {
                let (jx, jy) = joystick_data;
                let motor_left = clip_unit_exec(jx + jy);
                let motor_right = clip_unit_exec(jy - jx);
                Action::Drive(motor_left, motor_right)
            },
            None => Action::Idle,
        }
    }
}

} // verus!
