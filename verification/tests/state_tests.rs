use raspberry_pi_localization::deciders::{AlwaysIdle, Decider, FollowJoystick};
use raspberry_pi_localization::actions::Action;
use raspberry_pi_localization::fixed::FIX_ONE;
use raspberry_pi_localization::geo::{
    max_point_track, min_point_track, Cartesian2D, Cartesian2DTrack, DistanceMM, KinematicState,
    MotionBurst, OrientedVelocity, Velocity, Velocity2D,
};
use raspberry_pi_localization::user_input::{Button, UserInput};

fn fix(x: f64) -> i64 {
    (x * (FIX_ONE as f64)).round() as i64
}

#[test]
fn test_min_max_point_on_track() {
    let mut track: Cartesian2DTrack = Vec::new();
    track.push(Cartesian2D::new(fix(0.0), fix(0.0)));
    track.push(Cartesian2D::new(fix(-1.0), fix(0.0)));
    track.push(Cartesian2D::new(fix(0.0), fix(1.0)));
    track.push(Cartesian2D::new(fix(4.0), fix(5.0)));
    track.push(Cartesian2D::new(fix(0.0), fix(-3.0)));

    let min_point = min_point_track(&track).unwrap();
    assert_eq!(min_point.x, fix(-1.0));
    assert_eq!(min_point.y, fix(-3.0));

    let max_point = max_point_track(&track).unwrap();
    assert_eq!(max_point.x, fix(4.0));
    assert_eq!(max_point.y, fix(5.0));

    let empty: Cartesian2DTrack = Vec::new();
    assert!(min_point_track(&empty).is_none());
    assert!(max_point_track(&empty).is_none());
}

#[test]
fn kinematic_state_flattens_into_a_vector() {
    let k = KinematicState::new(
        Cartesian2D::new(fix(1.0), fix(2.0)),
        Velocity2D::new(fix(0.5), fix(-0.5)),
    );
    let v = k.to_vector().unwrap();
    assert_eq!(v.get(0, 0), fix(1.0));
    assert_eq!(v.get(1, 0), fix(2.0));
    assert_eq!(v.get(2, 0), fix(0.5));
    assert_eq!(v.get(3, 0), fix(-0.5));
}

#[test]
fn speed_of_a_three_four_velocity_is_five() {
    let v = Velocity::new(3 * FIX_ONE, 4 * FIX_ONE);
    assert_eq!(v.value(), 5 * FIX_ONE);
}

#[test]
fn motion_burst_decodes_the_raw_registers() {
    let raw: [u8; 13] = [0, 0, 0, 0x34, 0x12, 0xff, 0xff, 9, 10, 11, 12, 0xcd, 0xab];
    let burst = MotionBurst::from_bytes(&raw);
    assert_eq!(burst.delta_x, 0x1234);
    assert_eq!(burst.delta_y, -1);
    assert_eq!(burst.squal, 9);
    assert_eq!(burst.raw_sum, 10);
    assert_eq!(burst.raw_max, 11);
    assert_eq!(burst.raw_min, 12);
    assert_eq!(burst.shutter, 0xabcd);
}

#[test]
fn oriented_velocity_rotates_into_the_global_frame() {
    let mut ov: OrientedVelocity<(), ()> = OrientedVelocity::new((), (), 0);
    // One second, one metre travelled along the local x axis, heading
    // straight ahead: the global velocity is one metre per second in x.
    let v = ov.step(DistanceMM::new(1000 * FIX_ONE, 0), 0, FIX_ONE, 1000);
    assert_eq!(v.vx, FIX_ONE);
    assert_eq!(v.vy, 0);

    // A quarter turn maps local x onto global y.
    let v = ov.step(DistanceMM::new(1000 * FIX_ONE, 0), FIX_ONE, 0, 2000);
    assert_eq!(v.vx, 0);
    assert_eq!(v.vy, -FIX_ONE);
}

#[test]
fn deciders_pick_their_actions() {
    let mut idle = AlwaysIdle::new();
    let input = UserInput::new(Some((FIX_ONE / 2, FIX_ONE / 2)), Some(Button::East));
    assert_eq!(idle.decide(&input), Action::Idle);

    let mut joystick = FollowJoystick::new();
    // Full forward deflection drives both motors ahead, clipped to one.
    let forward = UserInput::new(Some((0, FIX_ONE)), None);
    assert_eq!(joystick.decide(&forward), Action::Drive(FIX_ONE, FIX_ONE));

    // A half-right, half-forward deflection mixes differentially.
    let mixed = UserInput::new(Some((FIX_ONE / 2, FIX_ONE / 2)), None);
    assert_eq!(joystick.decide(&mixed), Action::Drive(FIX_ONE, 0));

    // Without a gamepad the robot idles.
    let empty = UserInput::idle();
    assert_eq!(joystick.decide(&empty), Action::Idle);

    assert!(forward.is_pressed(Button::East) == false);
    let pressed = UserInput::new(None, Some(Button::East));
    assert!(pressed.is_pressed(Button::East));
}
