//! The linear Kalman filter: a stateless predict/update pair.
//!
//! Both steps are pinned down entry by entry over the spec-level matrix
//! algebra, and both say exactly when they succeed: a step fails only when
//! the innovation covariance is singular or some intermediate would leave
//! the fixed-point scalar range.

use crate::fixed::{div_i128, tdiv, FIX_DT_MAX, FIX_ONE, MS_PER_S};
use crate::matrix::{
    add_spec, det_spec, grid_in_range, inv_spec, mul_spec, qform_spec, sub_spec, transpose_spec,
    Matrix, INV_DIM_MAX,
};
use crate::model::{LinearMeasurementModel, LinearTransitionModel};
use crate::state::{GaussianState, Measurement};
use vstd::prelude::*;

verus! {

/// Why an estimation step failed.
#[derive(Debug, PartialEq, Eq, Structural)]
pub enum EstimationError {
    /// A required matrix inverse does not exist, or an intermediate left
    /// the fixed-point scalar range.
    NumericalError,
    /// Anything else; no verified path produces it.
    Other,
}

/// Largest timestamp difference, in milliseconds, that the filter accepts
/// between consecutive measurements; it converts exactly to `FIX_DT_MAX`.
pub const MS_DT_MAX: i64 = 3000;

/// A millisecond difference as fixed-point seconds.
pub open spec fn dt_fix_spec(dt_ms: i64) -> int {
    tdiv(dt_ms as int * FIX_ONE as int, MS_PER_S as int)
}

/// Converts a millisecond time difference to fixed-point seconds.
pub fn dt_fix_of_ms(dt_ms: i64) -> (dt: i64)
    requires
        0 <= dt_ms <= MS_DT_MAX,
    ensures
        dt as int == dt_fix_spec(dt_ms),
        0 <= dt <= FIX_DT_MAX,
    {
    proof {
        crate::fixed::lemma_tdiv_nonneg(dt_ms as int * FIX_ONE as int, MS_PER_S as int);
        crate::fixed::lemma_tdiv_bound(
            dt_ms as int * FIX_ONE as int,
            MS_PER_S as int,
            (MS_DT_MAX as int) * (FIX_ONE as int),
        );
        assert(dt_ms as int * FIX_ONE as int >= 0 && crate::fixed::abs_i(
            dt_ms as int * FIX_ONE as int) <= (MS_DT_MAX as int) * (FIX_ONE as int))
            by (nonlinear_arith)
            requires 0 <= dt_ms as int <= MS_DT_MAX as int, FIX_ONE as int > 0;
        assert((MS_DT_MAX as int) * (FIX_ONE as int) / (MS_PER_S as int) == FIX_DT_MAX as int)
            by (nonlinear_arith)
            requires
                MS_DT_MAX as int == 3000,
                FIX_ONE as int == 65536,
                MS_PER_S as int == 1000,
                FIX_DT_MAX as int == 196608,
        ;
    }
    div_i128((dt_ms as i128) * (FIX_ONE as i128), MS_PER_S as i128) as i64
}

// ---------------------------------------------------------------------------
// Predict.
// ---------------------------------------------------------------------------

/// The predicted mean `F * mean`.
pub open spec fn predict_mean_spec(f: Seq<Seq<int>>, mean: Seq<Seq<int>>, sd: int)
    -> Seq<Seq<int>> {
    mul_spec(f, mean, sd, sd, 1)
}

/// The predicted covariance `F * cov * F^T + Q`.
pub open spec fn predict_cov_spec(
    f: Seq<Seq<int>>,
    q: Seq<Seq<int>>,
    cov: Seq<Seq<int>>,
    sd: int,
) -> Seq<Seq<int>> {
    add_spec(qform_spec(f, cov, sd, sd), q)
}

/// The predict step succeeds exactly when every intermediate stays in the
/// scalar range.
pub open spec fn predict_ok(
    f: Seq<Seq<int>>,
    q: Seq<Seq<int>>,
    mean: Seq<Seq<int>>,
    cov: Seq<Seq<int>>,
    sd: int,
) -> bool {
    &&& grid_in_range(predict_mean_spec(f, mean, sd))
    &&& grid_in_range(qform_spec(f, cov, sd, sd))
    &&& grid_in_range(predict_cov_spec(f, q, cov, sd))
}

/// One prediction step: propagates a prior belief through the transition
/// matrix `f` and adds the process noise `q`.
pub fn predict_state(f: &Matrix, q: &Matrix, prior: &GaussianState) -> (r: Option<GaussianState>)
    requires
        prior.wf(),
        f.wf(),
        q.wf(),
        f.rows() == prior.dim(),
        f.cols() == prior.dim(),
        q.rows() == prior.dim(),
        q.cols() == prior.dim(),
    ensures
        match r {
            Some(s) => {
                &&& s.wf()
                &&& s.dim() == prior.dim()
                &&& s.mean@ == predict_mean_spec(f@, prior.mean@, prior.dim())
                &&& s.cov@ == predict_cov_spec(f@, q@, prior.cov@, prior.dim())
                &&& predict_ok(f@, q@, prior.mean@, prior.cov@, prior.dim())
            },
            None => !predict_ok(f@, q@, prior.mean@, prior.cov@, prior.dim()),
        },
{
    let mean = match f.mul(&prior.mean) {
        Some(m) => m,
        None => {
            return None;
        },
    };
    let fpf = match f.qform(&prior.cov) {
        Some(m) => m,
        None => {
            return None;
        },
    };
    let cov = match fpf.add(q) {
        Some(m) => m,
        None => {
            return None;
        },
    };
    Some(GaussianState::new(mean, cov))
}

// ---------------------------------------------------------------------------
// Update.
// ---------------------------------------------------------------------------

/// The projection `H * mean` of the predicted mean into observation space.
pub open spec fn proj_spec(h: Seq<Seq<int>>, mean: Seq<Seq<int>>, sd: int, md: int)
    -> Seq<Seq<int>> {
    mul_spec(h, mean, md, sd, 1)
}

/// The innovation `z - H * mean`.
pub open spec fn innov_spec(
    h: Seq<Seq<int>>,
    mean: Seq<Seq<int>>,
    z: Seq<Seq<int>>,
    sd: int,
    md: int,
) -> Seq<Seq<int>> {
    sub_spec(z, proj_spec(h, mean, sd, md))
}

/// The innovation covariance `S = H * cov * H^T + R`.
pub open spec fn innov_cov_spec(
    h: Seq<Seq<int>>,
    r: Seq<Seq<int>>,
    cov: Seq<Seq<int>>,
    sd: int,
    md: int,
) -> Seq<Seq<int>> {
    add_spec(qform_spec(h, cov, md, sd), r)
}

/// The Kalman gain `K = cov * H^T * S^{-1}`.
pub open spec fn gain_spec(
    h: Seq<Seq<int>>,
    r: Seq<Seq<int>>,
    cov: Seq<Seq<int>>,
    sd: int,
    md: int,
) -> Seq<Seq<int>> {
    mul_spec(
        mul_spec(cov, transpose_spec(h, md, sd), sd, sd, md),
        inv_spec(innov_cov_spec(h, r, cov, sd, md), md),
        sd,
        md,
        md,
    )
}

/// The updated mean `mean + K * (z - H * mean)`.
pub open spec fn update_mean_spec(
    h: Seq<Seq<int>>,
    r: Seq<Seq<int>>,
    mean: Seq<Seq<int>>,
    cov: Seq<Seq<int>>,
    z: Seq<Seq<int>>,
    sd: int,
    md: int,
) -> Seq<Seq<int>> {
    add_spec(mean, mul_spec(gain_spec(h, r, cov, sd, md), innov_spec(h, mean, z, sd, md), sd, md, 1))
}

/// The updated covariance `cov - K * S * K^T`.
pub open spec fn update_cov_spec(
    h: Seq<Seq<int>>,
    r: Seq<Seq<int>>,
    cov: Seq<Seq<int>>,
    sd: int,
    md: int,
) -> Seq<Seq<int>> {
    sub_spec(cov, qform_spec(gain_spec(h, r, cov, sd, md), innov_cov_spec(h, r, cov, sd, md), sd, md))
}

/// The update step succeeds exactly when the innovation covariance is
/// invertible and every intermediate stays in the scalar range.
pub open spec fn update_ok(
    h: Seq<Seq<int>>,
    r: Seq<Seq<int>>,
    mean: Seq<Seq<int>>,
    cov: Seq<Seq<int>>,
    z: Seq<Seq<int>>,
    sd: int,
    md: int,
) -> bool {
    &&& grid_in_range(proj_spec(h, mean, sd, md))
    &&& grid_in_range(innov_spec(h, mean, z, sd, md))
    &&& grid_in_range(qform_spec(h, cov, md, sd))
    &&& grid_in_range(innov_cov_spec(h, r, cov, sd, md))
    &&& det_spec(innov_cov_spec(h, r, cov, sd, md), md as nat) != 0
    &&& grid_in_range(inv_spec(innov_cov_spec(h, r, cov, sd, md), md))
    &&& grid_in_range(mul_spec(cov, transpose_spec(h, md, sd), sd, sd, md))
    &&& grid_in_range(gain_spec(h, r, cov, sd, md))
    &&& grid_in_range(mul_spec(gain_spec(h, r, cov, sd, md), innov_spec(h, mean, z, sd, md), sd, md, 1))
    &&& grid_in_range(update_mean_spec(h, r, mean, cov, z, sd, md))
    &&& grid_in_range(qform_spec(gain_spec(h, r, cov, sd, md), innov_cov_spec(h, r, cov, sd, md), sd, md))
    &&& grid_in_range(update_cov_spec(h, r, cov, sd, md))
}

/// One update step: folds the measurement `z` into the predicted belief
/// through the measurement matrix `h` with noise `r`.  Fails exactly when
/// the innovation covariance is singular or an intermediate leaves the
/// scalar range.
pub fn update_state(h: &Matrix, r: &Matrix, pred: &GaussianState, z: &Matrix)
    -> (res: Option<GaussianState>)
    requires
        pred.wf(),
        h.wf(),
        r.wf(),
        z.wf(),
        h.cols() == pred.dim(),
        h.rows() == r.rows(),
        h.rows() == r.cols(),
        h.rows() <= INV_DIM_MAX,
        z.rows() == h.rows(),
        z.cols() == 1,
    ensures
        match res {
            Some(s) => {
                &&& s.wf()
                &&& s.dim() == pred.dim()
                &&& s.mean@ == update_mean_spec(h@, r@, pred.mean@, pred.cov@, z@, pred.dim(),
                    h.rows())
                &&& s.cov@ == update_cov_spec(h@, r@, pred.cov@, pred.dim(), h.rows())
                &&& update_ok(h@, r@, pred.mean@, pred.cov@, z@, pred.dim(), h.rows())
            },
            None => !update_ok(h@, r@, pred.mean@, pred.cov@, z@, pred.dim(), h.rows()),
        },
{
    let proj = match h.mul(&pred.mean) {
        Some(m) => m,
        None => {
            return None;
        },
    };
    let innov = match z.sub(&proj) {
        Some(m) => m,
        None => {
            return None;
        },
    };
    let hph = match h.qform(&pred.cov) {
        Some(m) => m,
        None => {
            return None;
        },
    };
    let s = match hph.add(r) {
        Some(m) => m,
        None => {
            return None;
        },
    };
    let sinv = match s.invert() {
        Some(m) => m,
        None => {
            return None;
        },
    };
    let ht = h.transpose();
    let pht = match pred.cov.mul(&ht) {
        Some(m) => m,
        None => {
            return None;
        },
    };
    let gain = match pht.mul(&sinv) {
        Some(m) => m,
        None => {
            return None;
        },
    };
    let corr = match gain.mul(&innov) {
        Some(m) => m,
        None => {
            return None;
        },
    };
    let mean = match pred.mean.add(&corr) {
        Some(m) => m,
        None => {
            return None;
        },
    };
    let ksk = match gain.qform(&s) {
        Some(m) => m,
        None => {
            return None;
        },
    };
    let cov = match pred.cov.sub(&ksk) {
        Some(m) => m,
        None => {
            return None;
        },
    };
    Some(GaussianState::new(mean, cov))
}

// ---------------------------------------------------------------------------
// The filter over a pair of models.
// ---------------------------------------------------------------------------

/// A stateless Kalman filter: a transition model paired with a measurement
/// model.  It holds no history; a track owns that.
pub struct KalmanFilter<TModel, MModel> {
    pub transition_model: TModel,
    pub measurement_model: MModel,
}

impl<TModel: LinearTransitionModel, MModel: LinearMeasurementModel> KalmanFilter<
    TModel,
    MModel,
> {
    /// The two models agree on the state dimension and both stay within
    /// the dimensions the library inverts.
    pub open spec fn valid(&self) -> bool {
        &&& self.transition_model.valid()
        &&& self.measurement_model.valid()
        &&& self.transition_model.sd() == self.measurement_model.sd()
        &&& 1 <= self.transition_model.sd() <= INV_DIM_MAX
        &&& 1 <= self.measurement_model.md() <= INV_DIM_MAX
    }

    /// The state dimension.
    pub open spec fn sd(&self) -> int {
        self.transition_model.sd()
    }

    /// The observation dimension.
    pub open spec fn md(&self) -> int {
        self.measurement_model.md()
    }

    pub fn new(transition_model: TModel, measurement_model: MModel) -> (f: Self)
        requires
            transition_model.valid(),
            measurement_model.valid(),
            transition_model.sd() == measurement_model.sd(),
            1 <= transition_model.sd() <= INV_DIM_MAX,
            1 <= measurement_model.md() <= INV_DIM_MAX,
        ensures
            f.transition_model == transition_model,
            f.measurement_model == measurement_model,
            f.valid(),
    {
        KalmanFilter { transition_model, measurement_model }
    }

    /// Predicts the state after `dt` fixed-point seconds from a prior
    /// belief.  Pure: the outcome is a function of the prior and `dt`
    /// alone.
    pub fn predict(&self, prior: &GaussianState, dt: i64) -> (r: Result<
        GaussianState,
        EstimationError,
    >)
        requires
            self.valid(),
            prior.wf(),
            prior.dim() == self.sd(),
            0 <= dt <= FIX_DT_MAX,
        ensures
            match r {
                Ok(s) => {
                    &&& s.wf()
                    &&& s.dim() == self.sd()
                    &&& s.mean@ == predict_mean_spec(self.transition_model.tmat_spec(dt),
                        prior.mean@, self.sd())
                    &&& s.cov@ == predict_cov_spec(self.transition_model.tmat_spec(dt),
                        self.transition_model.terr_spec(dt), prior.cov@, self.sd())
                    &&& predict_ok(self.transition_model.tmat_spec(dt),
                        self.transition_model.terr_spec(dt), prior.mean@, prior.cov@, self.sd())
                },
                Err(e) => {
                    &&& e == EstimationError::NumericalError
                    &&& !predict_ok(self.transition_model.tmat_spec(dt),
                        self.transition_model.terr_spec(dt), prior.mean@, prior.cov@, self.sd())
                },
            },
    {
        let f = self.transition_model.transition_matrix(dt);
        let q = self.transition_model.transition_error(dt);
        match predict_state(&f, &q, prior) {
            Some(s) => Ok(s),
            None => Err(EstimationError::NumericalError),
        }
    }

    /// Folds a measurement into a predicted belief.  Fails exactly when
    /// the innovation covariance is singular or an intermediate leaves the
    /// scalar range.
    pub fn filter(&self, prediction: &GaussianState, measurement: &Measurement) -> (r: Result<
        GaussianState,
        EstimationError,
    >)
        requires
            self.valid(),
            prediction.wf(),
            prediction.dim() == self.sd(),
            measurement.wf(),
            measurement.dim() == self.md(),
        ensures
            match r {
                Ok(s) => {
                    &&& s.wf()
                    &&& s.dim() == self.sd()
                    &&& s.mean@ == update_mean_spec(self.measurement_model.hmat_spec(),
                        self.measurement_model.herr_spec(), prediction.mean@, prediction.cov@,
                        measurement.vector@, self.sd(), self.md())
                    &&& s.cov@ == update_cov_spec(self.measurement_model.hmat_spec(),
                        self.measurement_model.herr_spec(), prediction.cov@, self.sd(), self.md())
                    &&& update_ok(self.measurement_model.hmat_spec(),
                        self.measurement_model.herr_spec(), prediction.mean@, prediction.cov@,
                        measurement.vector@, self.sd(), self.md())
                },
                Err(e) => {
                    &&& e == EstimationError::NumericalError
                    &&& !update_ok(self.measurement_model.hmat_spec(),
                        self.measurement_model.herr_spec(), prediction.mean@, prediction.cov@,
                        measurement.vector@, self.sd(), self.md())
                },
            },
    {
        let h = self.measurement_model.measurement_matrix();
        let r = self.measurement_model.measurement_error();
        match update_state(&h, &r, prediction, &measurement.vector) {
            Some(s) => Ok(s),
            None => Err(EstimationError::NumericalError),
        }
    }
}

} // verus!
