use raspberry_pi_localization::fixed::FIX_ONE;
use raspberry_pi_localization::kalman::KalmanFilter;
use raspberry_pi_localization::matrix::Matrix;
use raspberry_pi_localization::model::{ConstantVelocity, PositionMeasurementModel};
use raspberry_pi_localization::state::{GaussianState, Measurement, Waypoint};
use raspberry_pi_localization::track::Track;

fn fix(x: f64) -> i64 {
    (x * (FIX_ONE as f64)).round() as i64
}

fn unfix(v: i64) -> f64 {
    (v as f64) / (FIX_ONE as f64)
}

struct Lcg {
    state: u64,
}

impl Lcg {
    fn new(seed: u64) -> Lcg {
        Lcg { state: seed }
    }

    /// A deterministic pseudo-random value in [-0.1, 0.1].
    fn noise(&mut self) -> f64 {
        self.state = self
            .state
            .wrapping_mul(6364136223846793005)
            .wrapping_add(1442695040888963407);
        let raw = (self.state >> 33) as f64 / ((1u64 << 31) as f64);
        (raw - 0.5) * 0.2
    }
}

fn p(t: f64) -> (f64, f64) {
    // position: shape of 8
    (t.sin(), (2.0 * t).sin())
}

fn v(t: f64) -> (f64, f64) {
    (t.cos(), 2.0 * (2.0 * t).cos())
}

fn truth_state(t: f64) -> GaussianState {
    let (x, y) = p(t);
    let (vx, vy) = v(t);
    let mean = Matrix::column(vec![fix(x), fix(y), fix(vx), fix(vy)]).unwrap();
    let cov = Matrix::diagonal(vec![fix(0.1), fix(0.1), fix(0.1), fix(0.1)]);
    GaussianState::new(mean, cov)
}

#[test]
fn test_example() {
    let kalman_filter = KalmanFilter::new(
        ConstantVelocity::new(fix(0.05)),
        PositionMeasurementModel::new(fix(0.1), fix(0.1)),
    );

    let mut lcg = Lcg::new(42);
    let mut times: Vec<f64> = Vec::new();
    let mut t = 0.0;
    while t <= 10.0 {
        times.push(t);
        t += 0.1;
    }

    let t0 = times[0];
    let seed_state = truth_state(t0);
    let seed = Waypoint::new(
        (t0 * 1000.0) as i64,
        Matrix::column(vec![0, 0]).unwrap(),
        seed_state.duplicate(),
        seed_state,
    );
    let mut track = Track::new(seed);

    let mut score = 0.0_f64;
    for idx in 1..times.len() {
        let ti = times[idx];
        let (x, y) = p(ti);
        let mx = x + lcg.noise();
        let my = y + lcg.noise();
        let ts = (ti * 1000.0) as i64;
        let measurement =
            Measurement::new(ts, Matrix::column(vec![fix(mx), fix(my)]).unwrap());
        let estimation = kalman_filter.estimate(&track, &measurement).unwrap();
        let ex = unfix(estimation.mean.get(0, 0));
        let ey = unfix(estimation.mean.get(1, 0));
        score = score.max((ex - x).abs()).max((ey - y).abs());
        let wp = Waypoint::new(
            ts,
            Matrix::column(vec![fix(mx), fix(my)]).unwrap(),
            estimation.duplicate(),
            estimation,
        );
        track.add_waypoint(wp);
    }

    assert!(score <= 1.5); // quite arbitrary for now
}

/// Predicting over a zero time step from a prior whose projected mean is
/// measured back leaves the mean unchanged.
#[test]
fn zero_dt_fixed_point() {
    let kalman_filter = KalmanFilter::new(
        ConstantVelocity::new(fix(0.05)),
        PositionMeasurementModel::new(fix(0.1), fix(0.1)),
    );
    let mean = Matrix::column(vec![fix(1.25), fix(-2.5), fix(0.5), fix(0.75)]).unwrap();
    let cov = Matrix::diagonal(vec![fix(3.0), fix(3.0), fix(1.0), fix(1.0)]);
    let prior = GaussianState::new(mean, cov);

    let predicted = kalman_filter.predict(&prior, 0).unwrap();
    for i in 0..4 {
        assert_eq!(predicted.mean.get(i, 0), prior.mean.get(i, 0));
        for j in 0..4 {
            assert_eq!(predicted.cov.get(i, j), prior.cov.get(i, j));
        }
    }

    // Measure exactly the projection of the predicted mean.
    let z = Matrix::column(vec![predicted.mean.get(0, 0), predicted.mean.get(1, 0)]).unwrap();
    let measurement = Measurement::new(0, z);
    let updated = kalman_filter.filter(&predicted, &measurement).unwrap();
    for i in 0..4 {
        assert_eq!(updated.mean.get(i, 0), predicted.mean.get(i, 0));
    }
}

/// The updated covariance stays symmetric and its trace never grows.
#[test]
fn update_shrinks_uncertainty() {
    let kalman_filter = KalmanFilter::new(
        ConstantVelocity::new(fix(0.05)),
        PositionMeasurementModel::new(fix(0.1), fix(0.1)),
    );
    let mean = Matrix::column(vec![0, 0, fix(1.0), fix(2.0)]).unwrap();
    let cov = Matrix::diagonal(vec![fix(3.0), fix(3.0), fix(1.0), fix(1.0)]);
    let prior = GaussianState::new(mean, cov);
    let predicted = kalman_filter.predict(&prior, fix(0.1)).unwrap();
    let pre_trace = predicted.cov.trace();

    let z = Matrix::column(vec![fix(0.2), fix(0.3)]).unwrap();
    let updated = kalman_filter
        .filter(&predicted, &Measurement::new(100, z))
        .unwrap();
    for i in 0..4 {
        for j in 0..4 {
            assert_eq!(updated.cov.get(i, j), updated.cov.get(j, i));
        }
    }
    assert!(updated.cov.trace() <= pre_trace);
}

/// Predicting twice from the same prior gives bit-for-bit the same
/// result.
#[test]
fn predict_is_pure() {
    let kalman_filter = KalmanFilter::new(
        ConstantVelocity::new(fix(0.05)),
        PositionMeasurementModel::new(fix(0.1), fix(0.1)),
    );
    let mean = Matrix::column(vec![fix(0.5), fix(-0.25), fix(1.0), fix(0.0)]).unwrap();
    let cov = Matrix::diagonal(vec![fix(2.0), fix(2.0), fix(0.5), fix(0.5)]);
    let prior = GaussianState::new(mean, cov);

    let first = kalman_filter.predict(&prior, fix(0.1)).unwrap();
    let second = kalman_filter.predict(&prior, fix(0.1)).unwrap();
    for i in 0..4 {
        assert_eq!(first.mean.get(i, 0), second.mean.get(i, 0));
        for j in 0..4 {
            assert_eq!(first.cov.get(i, j), second.cov.get(i, j));
        }
    }
}

#[test]
fn matrix_inverse_exact() {
    // The inverse of a diagonal matrix of twos is a diagonal of halves.
    let m = Matrix::diagonal(vec![2 * FIX_ONE, 2 * FIX_ONE]);
    let inv = m.invert().unwrap();
    assert_eq!(inv.get(0, 0), FIX_ONE / 2);
    assert_eq!(inv.get(1, 1), FIX_ONE / 2);
    assert_eq!(inv.get(0, 1), 0);
    assert_eq!(inv.get(1, 0), 0);

    // A singular matrix has no inverse.
    let z = Matrix::zeros(2, 2);
    assert!(z.invert().is_none());
}

#[test]
fn matrix_shape_and_range_checks() {
    // Ragged rows are refused.
    let ragged = Matrix::from_rows(vec![vec![0, 0], vec![0]]);
    assert!(ragged.is_none());

    // Entries beyond the scalar bound are refused.
    let wild = Matrix::column(vec![i64::MAX]);
    assert!(wild.is_none());

    // Sums that would leave the scalar range are refused.
    let big = Matrix::diagonal(vec![1073741824, 1073741824]);
    assert!(big.add(&big).is_none());
}
