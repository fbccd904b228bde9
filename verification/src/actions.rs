//! Actions and their translation into motor commands.

use crate::fixed::{abs_i, FIX_ONE};
use vstd::prelude::*;

verus! {

/// The modes a motor can be set to.
#[derive(Debug, PartialEq, Eq, Structural, Copy, Clone)]
pub enum Directions {
    FORWARD,
    BACKWARD,
    BREAK,
}

impl Directions {
    /// The direction a signed speed drives in: forward exactly when the
    /// speed is nonnegative.
    pub fn from_speed(value: i64) -> (d: Directions)
        ensures
            d == (if value >= 0 {
                Directions::FORWARD
            } else {
                Directions::BACKWARD
            }),
    {
        if value >= 0 {
            Directions::FORWARD
        } else {
            Directions::BACKWARD
        }
    }
}

/// What the robot is asked to do: stand still, or drive with the given
/// fixed-point speeds for the left and the right motor.
#[derive(Debug, PartialEq, Eq, Structural, Copy, Clone)]
pub enum Action {
    Idle,
    Drive(i64, i64),
}

/// One fully resolved command to the motor controller.
#[derive(Debug, PartialEq, Eq, Structural, Copy, Clone)]
pub struct MotorCommand {
    pub motor_id: u8,
    pub direction: Directions,
    pub speed: i64,
}

/// A driver of the robot's motors; implemented outside the core, against
/// real hardware or a test double.
pub trait MotorController<ERR>: Sized {
    fn set_speed(&mut self, motor_id: u8, speed: i64) -> Result<(), ERR>;

    fn set_direction(&mut self, motor_id: u8, direction: Directions) -> Result<(), ERR>;

    fn run(&mut self, motor_id: u8, direction: Directions, speed: i64) -> Result<(), ERR> {
        let r = self.set_direction(motor_id, direction);
        match r {
            Ok(()) => self.set_speed(motor_id, speed),
            Err(e) => Err(e),
        }
    }
}

/// A speed's magnitude, capped at full scale.
pub open spec fn speed_clamp(v: int) -> int {
    if abs_i(v) > FIX_ONE as int {
        FIX_ONE as int
    } else {
        abs_i(v)
    }
}

/// The direction a signed speed drives in.
pub open spec fn direction_of(v: int) -> Directions {
    if v >= 0 {
        Directions::FORWARD
    } else {
        Directions::BACKWARD
    }
}

/// The two motor commands an action resolves to: the left motor has id 0
/// and the right motor id 2; driving clamps each speed's magnitude to
/// full scale, idling breaks both motors.
pub open spec fn action_commands_spec(action: Action) -> Seq<MotorCommand> {
    match action {
        Action::Idle => seq![
            MotorCommand { motor_id: 0, direction: Directions::BREAK, speed: 0 },
            MotorCommand { motor_id: 2, direction: Directions::BREAK, speed: 0 },
        ],
        Action::Drive(l, r) => seq![
            MotorCommand {
                motor_id: 0,
                direction: direction_of(l as int),
                speed: speed_clamp(l as int) as i64,
            },
            MotorCommand {
                motor_id: 2,
                direction: direction_of(r as int),
                speed: speed_clamp(r as int) as i64,
            },
        ],
    }
}

/// Computes the clamped magnitude of a speed without overflowing.
fn clamp_speed(v: i64) -> (r: i64)
    ensures
        r as int == speed_clamp(v as int),
{
    if v >= 0 {
        if v > FIX_ONE {
            FIX_ONE
        } else {
            v
        }
    } else if v <= -FIX_ONE {
        FIX_ONE
    } else {
        -v
    }
}

/// Resolves an action into the exact motor commands to issue.
pub fn action_to_commands(action: &Action) -> (cmds: Vec<MotorCommand>)
    ensures
        cmds@ == action_commands_spec(*action),
{
    let mut cmds: Vec<MotorCommand> = Vec::new();
    match action {
        Action::Idle => {
            cmds.push(MotorCommand { motor_id: 0, direction: Directions::BREAK, speed: 0 });
            cmds.push(MotorCommand { motor_id: 2, direction: Directions::BREAK, speed: 0 });
        },
        Action::Drive(l, r) => {
            cmds.push(
                MotorCommand {
                    motor_id: 0,
                    direction: Directions::from_speed(*l),
                    speed: clamp_speed(*l),
                },
            );
            cmds.push(
                MotorCommand {
                    motor_id: 2,
                    direction: Directions::from_speed(*r),
                    speed: clamp_speed(*r),
                },
            );
        },
    }
    proof {
        assert(cmds@ =~= action_commands_spec(*action));
    }
    cmds
}

/// Forwards an action to the motor controller: both motors, ids 0 and 2,
/// receive their resolved command in order; the first driver error is
/// returned as it stands.
pub fn perform_action<ERR, M: MotorController<ERR>>(action: Action, motor_controller: &mut M)
    -> Result<(), ERR> {
    let cmds = action_to_commands(&action);
    let mut k: usize = 0;
    while k < cmds.len()
        decreases cmds@.len() - k,
    {
        let cmd = cmds[k];
        let r = motor_controller.run(cmd.motor_id, cmd.direction, cmd.speed);
        match r {
            Ok(()) => {},
            Err(e) => {
                return Err(e);
            },
        }
        k += 1;
    }
    Ok(())
}

} // verus!
