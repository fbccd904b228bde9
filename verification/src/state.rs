//! Estimation state: Gaussian beliefs, measurements and waypoints.

use crate::matrix::Matrix;
use vstd::prelude::*;

verus! {

/// A state estimate: a mean column vector together with the covariance
/// matrix of its uncertainty.  A new value is produced by every predict and
/// update step; nothing mutates one in place.
pub struct GaussianState {
    pub mean: Matrix,
    pub cov: Matrix,
}

impl GaussianState {
    /// Shapes agree: the mean is a column, the covariance is square of the
    /// same dimension.
    pub open spec fn wf(&self) -> bool {
        &&& self.mean.wf()
        &&& self.cov.wf()
        &&& self.mean.cols() == 1
        &&& self.cov.rows() == self.mean.rows()
        &&& self.cov.cols() == self.mean.rows()
    }

    /// The state dimension.
    pub open spec fn dim(&self) -> int {
        self.mean.rows()
    }

    pub fn new(mean: Matrix, cov: Matrix) -> (s: GaussianState)
        requires
            mean.wf(),
            cov.wf(),
            mean.cols() == 1,
            cov.rows() == mean.rows(),
            cov.cols() == mean.rows(),
        ensures
            s.wf(),
            s.mean == mean,
            s.cov == cov,
    {
        GaussianState { mean, cov }
    }

    /// An entrywise copy.
    pub fn duplicate(&self) -> (s: GaussianState)
        requires
            self.wf(),
        ensures
            s.wf(),
            s.mean@ == self.mean@,
            s.cov@ == self.cov@,
            s.dim() == self.dim(),
    {
        GaussianState { mean: self.mean.duplicate(), cov: self.cov.duplicate() }
    }
}

/// A timestamped observation vector, ready for the filter.
pub struct Measurement {
    pub timestamp_ms: i64,
    pub vector: Matrix,
}

impl Measurement {
    pub open spec fn wf(&self) -> bool {
        &&& self.vector.wf()
        &&& self.vector.cols() == 1
        &&& self.timestamp_ms >= 0
    }

    /// The measurement dimension.
    pub open spec fn dim(&self) -> int {
        self.vector.rows()
    }

    pub fn new(timestamp_ms: i64, vector: Matrix) -> (m: Measurement)
        requires
            vector.wf(),
            vector.cols() == 1,
            timestamp_ms >= 0,
        ensures
            m.wf(),
            m.timestamp_ms == timestamp_ms,
            m.vector == vector,
    {
        Measurement { timestamp_ms, vector }
    }
}

/// One entry of a track: the raw measurement that arrived at a point in
/// time, the prior prediction for that time, and the estimate after the
/// update (later rewritten in place by smoothing).
pub struct Waypoint {
    pub timestamp_ms: i64,
    pub measurement: Matrix,
    pub prediction: GaussianState,
    pub estimate: GaussianState,
}

impl Waypoint {
    pub open spec fn wf(&self) -> bool {
        &&& self.measurement.wf()
        &&& self.measurement.cols() == 1
        &&& self.prediction.wf()
        &&& self.estimate.wf()
        &&& self.estimate.dim() == self.prediction.dim()
        &&& self.timestamp_ms >= 0
    }

    /// The state dimension of the waypoint's estimates.
    pub open spec fn dim(&self) -> int {
        self.prediction.dim()
    }

    pub fn new(
        timestamp_ms: i64,
        measurement: Matrix,
        prediction: GaussianState,
        estimate: GaussianState,
    ) -> (w: Waypoint)
        requires
            measurement.wf(),
            measurement.cols() == 1,
            prediction.wf(),
            estimate.wf(),
            estimate.dim() == prediction.dim(),
            timestamp_ms >= 0,
        ensures
            w.wf(),
            w.timestamp_ms == timestamp_ms,
            w.measurement == measurement,
            w.prediction == prediction,
            w.estimate == estimate,
    {
        Waypoint { timestamp_ms, measurement, prediction, estimate }
    }
}

} // verus!
