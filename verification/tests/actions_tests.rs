use raspberry_pi_localization::actions::{
    action_to_commands, perform_action, Action, Directions, MotorCommand, MotorController,
};
use raspberry_pi_localization::fixed::FIX_ONE;

struct MockMotorController {
    motors: [(Directions, i64); 4],
}

impl MotorController<std::fmt::Error> for MockMotorController {
    fn set_speed(&mut self, motor_id: u8, speed: i64) -> Result<(), std::fmt::Error> {
        let motor_id = motor_id as usize;
        let (old_direction, _) = self.motors[motor_id];
        self.motors[motor_id] = (old_direction, speed);
        Ok(())
    }

    fn set_direction(
        &mut self,
        motor_id: u8,
        direction: Directions,
    ) -> Result<(), std::fmt::Error> {
        let motor_id = motor_id as usize;
        let (_, old_speed) = self.motors[motor_id];
        self.motors[motor_id] = (direction, old_speed);
        Ok(())
    }
}

fn fresh_mock() -> MockMotorController {
    MockMotorController {
        motors: [
            (Directions::FORWARD, 0),
            (Directions::FORWARD, 0),
            (Directions::FORWARD, 0),
            (Directions::FORWARD, 0),
        ],
    }
}

#[test]
fn test_perform_action() {
    let mut motor_controller = fresh_mock();

    perform_action(Action::Drive(FIX_ONE, FIX_ONE), &mut motor_controller).unwrap();
    assert_eq!(motor_controller.motors[0], (Directions::FORWARD, FIX_ONE));
    assert_eq!(motor_controller.motors[2], (Directions::FORWARD, FIX_ONE));

    perform_action(Action::Idle, &mut motor_controller).unwrap();
    assert_eq!(motor_controller.motors[0], (Directions::BREAK, 0));
    assert_eq!(motor_controller.motors[2], (Directions::BREAK, 0));

    perform_action(Action::Drive(20 * FIX_ONE, 20 * FIX_ONE), &mut motor_controller).unwrap();
    assert_eq!(motor_controller.motors[0], (Directions::FORWARD, FIX_ONE));
    assert_eq!(motor_controller.motors[2], (Directions::FORWARD, FIX_ONE));

    perform_action(
        Action::Drive(FIX_ONE / 2, -FIX_ONE / 4),
        &mut motor_controller,
    )
    .unwrap();
    assert_eq!(motor_controller.motors[0], (Directions::FORWARD, FIX_ONE / 2));
    assert_eq!(motor_controller.motors[2], (Directions::BACKWARD, FIX_ONE / 4));
}

#[test]
fn actions_test_perform_action() {
    let mut motor_controller = fresh_mock();

    perform_action(Action::Drive(FIX_ONE, FIX_ONE), &mut motor_controller).unwrap();
    assert_eq!(motor_controller.motors[0], (Directions::FORWARD, FIX_ONE));
    assert_eq!(motor_controller.motors[2], (Directions::FORWARD, FIX_ONE));

    perform_action(Action::Idle, &mut motor_controller).unwrap();
    assert_eq!(motor_controller.motors[0], (Directions::BREAK, 0));
    assert_eq!(motor_controller.motors[2], (Directions::BREAK, 0));

    perform_action(Action::Drive(20 * FIX_ONE, 20 * FIX_ONE), &mut motor_controller).unwrap();
    assert_eq!(motor_controller.motors[0], (Directions::FORWARD, FIX_ONE));
    assert_eq!(motor_controller.motors[2], (Directions::FORWARD, FIX_ONE));

    perform_action(
        Action::Drive(FIX_ONE / 2, -FIX_ONE / 4),
        &mut motor_controller,
    )
    .unwrap();
    assert_eq!(motor_controller.motors[0], (Directions::FORWARD, FIX_ONE / 2));
    assert_eq!(motor_controller.motors[2], (Directions::BACKWARD, FIX_ONE / 4));
}

#[test]
fn commands_resolve_exactly() {
    let idle = action_to_commands(&Action::Idle);
    assert_eq!(
        idle,
        vec![
            MotorCommand { motor_id: 0, direction: Directions::BREAK, speed: 0 },
            MotorCommand { motor_id: 2, direction: Directions::BREAK, speed: 0 },
        ]
    );

    let drive = action_to_commands(&Action::Drive(-3 * FIX_ONE, FIX_ONE / 8));
    assert_eq!(
        drive,
        vec![
            MotorCommand { motor_id: 0, direction: Directions::BACKWARD, speed: FIX_ONE },
            MotorCommand { motor_id: 2, direction: Directions::FORWARD, speed: FIX_ONE / 8 },
        ]
    );
}
