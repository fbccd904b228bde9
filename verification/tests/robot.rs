use raspberry_pi_localization::actions::{perform_action, Action, Directions, MotorController};
use raspberry_pi_localization::fixed::FIX_ONE;
use raspberry_pi_localization::kalman::KalmanFilter;
use raspberry_pi_localization::matrix::Matrix;
use raspberry_pi_localization::model::{ConstantVelocity, MeasureAllModel};
use raspberry_pi_localization::state::{GaussianState, Measurement, Waypoint};
use raspberry_pi_localization::track::Track;

struct MockMotorController {
    motors: [(Directions, i64); 4],
}

impl MotorController<std::fmt::Error> for MockMotorController {
    fn set_speed(&mut self, motor_id: u8, speed: i64) -> Result<(), std::fmt::Error> {
        let motor_id = motor_id as usize;
        let (old_direction, _) = self.motors[motor_id];
        self.motors[motor_id] = (old_direction, speed);
        Ok(())
    }

    fn set_direction(
        &mut self,
        motor_id: u8,
        direction: Directions,
    ) -> Result<(), std::fmt::Error> {
        let motor_id = motor_id as usize;
        let (_, old_speed) = self.motors[motor_id];
        self.motors[motor_id] = (direction, old_speed);
        Ok(())
    }
}

#[test]
fn robot_test_perform_action() {
    let mut motor_controller = MockMotorController {
        motors: [
            (Directions::FORWARD, 0),
            (Directions::FORWARD, 0),
            (Directions::FORWARD, 0),
            (Directions::FORWARD, 0),
        ],
    };

    perform_action(Action::Drive(FIX_ONE, FIX_ONE), &mut motor_controller).unwrap();
    assert_eq!(motor_controller.motors[0], (Directions::FORWARD, FIX_ONE));
    assert_eq!(motor_controller.motors[2], (Directions::FORWARD, FIX_ONE));

    perform_action(Action::Idle, &mut motor_controller).unwrap();
    assert_eq!(motor_controller.motors[0], (Directions::BREAK, 0));
    assert_eq!(motor_controller.motors[2], (Directions::BREAK, 0));

    perform_action(Action::Drive(20 * FIX_ONE, 20 * FIX_ONE), &mut motor_controller).unwrap();
    assert_eq!(motor_controller.motors[0], (Directions::FORWARD, FIX_ONE));
    assert_eq!(motor_controller.motors[2], (Directions::FORWARD, FIX_ONE));

    perform_action(
        Action::Drive(FIX_ONE / 2, -FIX_ONE / 4),
        &mut motor_controller,
    )
    .unwrap();
    assert_eq!(motor_controller.motors[0], (Directions::FORWARD, FIX_ONE / 2));
    assert_eq!(motor_controller.motors[2], (Directions::BACKWARD, FIX_ONE / 4));
}

/// An update against a zero measurement-noise model and a zero initial
/// covariance has a singular innovation covariance, so the estimation
/// step must fail.
#[test]
fn failure_test() {
    let filter = KalmanFilter::new(
        ConstantVelocity::new(0),
        MeasureAllModel::new(vec![0, 0, 0, 0]),
    );
    let zero_mean = Matrix::column(vec![0, 0, 0, 0]).unwrap();
    let zero_cov = Matrix::zeros(4, 4);
    let state = GaussianState::new(zero_mean, zero_cov);
    let seed = Waypoint::new(
        0,
        Matrix::column(vec![0, 0, 0, 0]).unwrap(),
        state.duplicate(),
        state,
    );
    let track = Track::new(seed);
    let measurement = Measurement::new(100, Matrix::column(vec![0, 0, 0, 0]).unwrap());
    let result = filter.estimate(&track, &measurement);
    assert!(result.is_err());
}
