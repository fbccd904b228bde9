//! Tracks: ordered measurement histories with forward filtering and
//! backward (Rauch–Tung–Striebel) smoothing.

use crate::fixed::FIX_DT_MAX;
use crate::kalman::{
    dt_fix_of_ms, dt_fix_spec, predict_cov_spec, predict_mean_spec, predict_ok, predict_state,
    update_cov_spec, update_mean_spec, update_ok, update_state, EstimationError, KalmanFilter,
    MS_DT_MAX,
};
use crate::matrix::{
    add_spec, det_spec, grid_in_range, inv_spec, mul_spec, qform_spec, sub_spec, transpose_spec,
    Matrix, INV_DIM_MAX,
};
use crate::model::{LinearMeasurementModel, LinearTransitionModel};
use crate::state::{GaussianState, Measurement, Waypoint};
use vstd::pervasive::VecAdditionalExecFns;
use vstd::prelude::*;

verus! {

/// Why a track operation failed.
#[derive(Debug, PartialEq, Eq, Structural)]
pub enum KalmanError {
    /// A required matrix inverse does not exist, or an intermediate left
    /// the fixed-point scalar range.
    InversionFailure,
    /// The track holds no waypoint; prevented by construction here, since
    /// every track is seeded.
    NotInitialized,
}

// ---------------------------------------------------------------------------
// The plain track: an append-only, non-empty waypoint history.
// ---------------------------------------------------------------------------

/// A non-empty, time-ordered sequence of waypoints, oldest first.
pub struct Track {
    pub waypoints: Vec<Waypoint>,
}

impl Track {
    pub open spec fn wf(&self) -> bool {
        &&& self.waypoints@.len() >= 1
        &&& forall|i: int|
            0 <= i < self.waypoints@.len() ==> (#[trigger] self.waypoints@[i]).wf()
        &&& forall|i: int|
            0 <= i < self.waypoints@.len()
                ==> (#[trigger] self.waypoints@[i]).dim() == self.waypoints@[0].dim()
        &&& forall|i: int, j: int|
            0 <= i <= j < self.waypoints@.len()
                ==> (#[trigger] self.waypoints@[i]).timestamp_ms
                    <= (#[trigger] self.waypoints@[j]).timestamp_ms
    }

    /// The state dimension of every waypoint.
    pub open spec fn dim(&self) -> int {
        self.waypoints@[0].dim()
    }

    /// The most recent waypoint.
    pub open spec fn latest_spec(&self) -> Waypoint {
        self.waypoints@.last()
    }

    /// A track starts from exactly one seed waypoint.
    pub fn new(initial_waypoint: Waypoint) -> (t: Track)
        requires
            initial_waypoint.wf(),
        ensures
            t.wf(),
            t.waypoints@.len() == 1,
            t.waypoints@[0] == initial_waypoint,
    {
        let mut waypoints: Vec<Waypoint> = Vec::new();
        waypoints.push(initial_waypoint);
        Track { waypoints }
    }

    /// Appends a waypoint; time never goes backward.
    pub fn add_waypoint(&mut self, waypoint: Waypoint)
        requires
            old(self).wf(),
            waypoint.wf(),
            waypoint.dim() == old(self).dim(),
            waypoint.timestamp_ms >= old(self).latest_spec().timestamp_ms,
        ensures
            final(self).wf(),
            final(self).waypoints@ == old(self).waypoints@.push(waypoint),
            final(self).dim() == old(self).dim(),
    {
        self.waypoints.push(waypoint);
    }

    /// The most recent waypoint; the track is never empty.
    pub fn get_latest_waypoint(&self) -> (w: &Waypoint)
        requires
            self.wf(),
        ensures
            *w == self.latest_spec(),
    {
        let n = self.waypoints.len();
        &self.waypoints[n - 1]
    }
}

impl<TModel: LinearTransitionModel, MModel: LinearMeasurementModel> KalmanFilter<
    TModel,
    MModel,
> {
    /// The composite estimation step: the elapsed time is read off the
    /// track's latest waypoint, the prior is predicted forward and the
    /// measurement folded in.  This is the one entry point a track uses.
    pub fn estimate(&self, track: &Track, measurement: &Measurement) -> (r: Result<
        GaussianState,
        EstimationError,
    >)
        requires
            self.valid(),
            track.wf(),
            track.dim() == self.sd(),
            measurement.wf(),
            measurement.dim() == self.md(),
            track.latest_spec().timestamp_ms <= measurement.timestamp_ms,
            measurement.timestamp_ms - track.latest_spec().timestamp_ms <= MS_DT_MAX,
        ensures
            ({
                let prior = track.latest_spec().estimate;
                let dt = dt_fix_spec(
                    (measurement.timestamp_ms - track.latest_spec().timestamp_ms) as i64,
                );
                let f = self.transition_model.tmat_spec(dt as i64);
                let q = self.transition_model.terr_spec(dt as i64);
                let h = self.measurement_model.hmat_spec();
                let rr = self.measurement_model.herr_spec();
                let pm = predict_mean_spec(f, prior.mean@, self.sd());
                let pc = predict_cov_spec(f, q, prior.cov@, self.sd());
                let pok = predict_ok(f, q, prior.mean@, prior.cov@, self.sd());
                let uok = update_ok(h, rr, pm, pc, measurement.vector@, self.sd(), self.md());
                match r {
                    Ok(s) => {
                        &&& pok
                        &&& uok
                        &&& s.wf()
                        &&& s.dim() == self.sd()
                        &&& s.mean@ == update_mean_spec(h, rr, pm, pc, measurement.vector@,
                            self.sd(), self.md())
                        &&& s.cov@ == update_cov_spec(h, rr, pc, self.sd(), self.md())
                    },
                    Err(e) => e == EstimationError::NumericalError && !(pok && uok),
                }
            }),
    {
        let latest = track.get_latest_waypoint();
        let dt_ms = measurement.timestamp_ms - latest.timestamp_ms;
        let dt = dt_fix_of_ms(dt_ms);
        let prediction = match self.predict(&latest.estimate, dt) {
            Ok(p) => p,
            Err(e) => {
                return Err(e);
            },
        };
        self.filter(&prediction, measurement)
    }
}

// ---------------------------------------------------------------------------
// The Kalman track: filtering on arrival, smoothing on demand.
// ---------------------------------------------------------------------------

/// The elapsed milliseconds between waypoint `i` and its successor.
pub open spec fn wp_dt_ms(ws: Seq<Waypoint>, i: int) -> i64 {
    (ws[i + 1].timestamp_ms - ws[i].timestamp_ms) as i64
}

/// The smoother gain `C = est_cov * F^T * pred_cov_next^{-1}`.
pub open spec fn smooth_gain(
    est_cov: Seq<Seq<int>>,
    f: Seq<Seq<int>>,
    pred_cov_next: Seq<Seq<int>>,
    sd: int,
) -> Seq<Seq<int>> {
    mul_spec(
        mul_spec(est_cov, transpose_spec(f, sd, sd), sd, sd, sd),
        inv_spec(pred_cov_next, sd),
        sd,
        sd,
        sd,
    )
}

/// The smoothed mean `est_mean + C * (next_mean - next_pred_mean)`.
pub open spec fn sstep_mean(
    est_mean: Seq<Seq<int>>,
    c: Seq<Seq<int>>,
    next_mean: Seq<Seq<int>>,
    next_pred_mean: Seq<Seq<int>>,
    sd: int,
) -> Seq<Seq<int>> {
    add_spec(est_mean, mul_spec(c, sub_spec(next_mean, next_pred_mean), sd, sd, 1))
}

/// The smoothed covariance `est_cov + C * (next_cov - next_pred_cov) * C^T`.
pub open spec fn sstep_cov(
    est_cov: Seq<Seq<int>>,
    c: Seq<Seq<int>>,
    next_cov: Seq<Seq<int>>,
    next_pred_cov: Seq<Seq<int>>,
    sd: int,
) -> Seq<Seq<int>> {
    add_spec(est_cov, qform_spec(c, sub_spec(next_cov, next_pred_cov), sd, sd))
}

/// One backward step succeeds: the successor's predicted covariance is
/// invertible and every intermediate stays in the scalar range.
pub open spec fn sstep_ok(
    est_mean: Seq<Seq<int>>,
    est_cov: Seq<Seq<int>>,
    f: Seq<Seq<int>>,
    next_pred_mean: Seq<Seq<int>>,
    next_pred_cov: Seq<Seq<int>>,
    next_mean: Seq<Seq<int>>,
    next_cov: Seq<Seq<int>>,
    sd: int,
) -> bool {
    let c = smooth_gain(est_cov, f, next_pred_cov, sd);
    let dm = sub_spec(next_mean, next_pred_mean);
    let dc = sub_spec(next_cov, next_pred_cov);
    &&& grid_in_range(mul_spec(est_cov, transpose_spec(f, sd, sd), sd, sd, sd))
    &&& det_spec(next_pred_cov, sd as nat) != 0
    &&& grid_in_range(inv_spec(next_pred_cov, sd))
    &&& grid_in_range(c)
    &&& grid_in_range(dm)
    &&& grid_in_range(dc)
    &&& grid_in_range(mul_spec(c, dm, sd, sd, 1))
    &&& grid_in_range(sstep_mean(est_mean, c, next_mean, next_pred_mean, sd))
    &&& grid_in_range(qform_spec(c, dc, sd, sd))
    &&& grid_in_range(sstep_cov(est_cov, c, next_cov, next_pred_cov, sd))
}

/// The estimate the backward pass assigns to waypoint `i`, over the track
/// as it stood before smoothing: the last waypoint keeps its filtered
/// estimate, and every earlier one is corrected from the already-smoothed
/// successor.  Returns the pair (mean, covariance).
pub open spec fn smooth_rec<TModel: LinearTransitionModel>(
    tm: TModel,
    ws: Seq<Waypoint>,
    sd: int,
    i: int,
) -> (Seq<Seq<int>>, Seq<Seq<int>>)
    decreases ws.len() - 1 - i,
{
    if i < 0 || i >= ws.len() - 1 {
        (ws[i].estimate.mean@, ws[i].estimate.cov@)
    } else {
        let nxt = smooth_rec(tm, ws, sd, i + 1);
        let dt = dt_fix_spec(wp_dt_ms(ws, i)) as i64;
        let f = tm.tmat_spec(dt);
        let c = smooth_gain(ws[i].estimate.cov@, f, ws[i + 1].prediction.cov@, sd);
        (
            sstep_mean(ws[i].estimate.mean@, c, nxt.0, ws[i + 1].prediction.mean@, sd),
            sstep_cov(ws[i].estimate.cov@, c, nxt.1, ws[i + 1].prediction.cov@, sd),
        )
    }
}

/// The backward step from waypoint `i + 1` down to `i` succeeds.
pub open spec fn smooth_step_ok<TModel: LinearTransitionModel>(
    tm: TModel,
    ws: Seq<Waypoint>,
    sd: int,
    i: int,
) -> bool {
    let nxt = smooth_rec(tm, ws, sd, i + 1);
    let dt = dt_fix_spec(wp_dt_ms(ws, i)) as i64;
    let f = tm.tmat_spec(dt);
    sstep_ok(
        ws[i].estimate.mean@,
        ws[i].estimate.cov@,
        f,
        ws[i + 1].prediction.mean@,
        ws[i + 1].prediction.cov@,
        nxt.0,
        nxt.1,
        sd,
    )
}

/// One backward smoothing step, from the already-smoothed successor state
/// down to the waypoint before it.
fn smooth_step<TModel: LinearTransitionModel>(
    tm: &TModel,
    dt: i64,
    cur_est: &GaussianState,
    next_pred: &GaussianState,
    next_sm: &GaussianState,
) -> (r: Option<GaussianState>)
    requires
        tm.valid(),
        0 <= dt <= FIX_DT_MAX,
        cur_est.wf(),
        next_pred.wf(),
        next_sm.wf(),
        cur_est.dim() == tm.sd(),
        next_pred.dim() == tm.sd(),
        next_sm.dim() == tm.sd(),
        1 <= tm.sd() <= INV_DIM_MAX,
    ensures
        ({
            let f = tm.tmat_spec(dt);
            let c = smooth_gain(cur_est.cov@, f, next_pred.cov@, tm.sd());
            match r {
                Some(s) => {
                    &&& s.wf()
                    &&& s.dim() == tm.sd()
                    &&& sstep_ok(cur_est.mean@, cur_est.cov@, f, next_pred.mean@,
                        next_pred.cov@, next_sm.mean@, next_sm.cov@, tm.sd())
                    &&& s.mean@ == sstep_mean(cur_est.mean@, c, next_sm.mean@, next_pred.mean@,
                        tm.sd())
                    &&& s.cov@ == sstep_cov(cur_est.cov@, c, next_sm.cov@, next_pred.cov@,
                        tm.sd())
                },
                None => !sstep_ok(cur_est.mean@, cur_est.cov@, f, next_pred.mean@,
                    next_pred.cov@, next_sm.mean@, next_sm.cov@, tm.sd()),
            }
        }),
{
    let f = tm.transition_matrix(dt);
    let ft = f.transpose();
    let ecft = match cur_est.cov.mul(&ft) {
        Some(m) => m,
        None => {
            return None;
        },
    };
    let pinv = match next_pred.cov.invert() {
        Some(m) => m,
        None => {
            return None;
        },
    };
    let c = match ecft.mul(&pinv) {
        Some(m) => m,
        None => {
            return None;
        },
    };
    let dm = match next_sm.mean.sub(&next_pred.mean) {
        Some(m) => m,
        None => {
            return None;
        },
    };
    let dc = match next_sm.cov.sub(&next_pred.cov) {
        Some(m) => m,
        None => {
            return None;
        },
    };
    let corr = match c.mul(&dm) {
        Some(m) => m,
        None => {
            return None;
        },
    };
    let new_mean = match cur_est.mean.add(&corr) {
        Some(m) => m,
        None => {
            return None;
        },
    };
    let qc = match c.qform(&dc) {
        Some(m) => m,
        None => {
            return None;
        },
    };
    let new_cov = match cur_est.cov.add(&qc) {
        Some(m) => m,
        None => {
            return None;
        },
    };
    Some(GaussianState::new(new_mean, new_cov))
}

/// A track whose incoming measurements are filtered on arrival and whose
/// history can be rewritten once by a backward smoothing pass.
pub struct KalmanTrack<TModel, MModel> {
    pub transition_model: TModel,
    pub measurement_model: MModel,
    pub track: Vec<Waypoint>,
    pub smoothed: bool,
}

impl<TModel: LinearTransitionModel, MModel: LinearMeasurementModel> KalmanTrack<
    TModel,
    MModel,
> {
    pub open spec fn sd(&self) -> int {
        self.transition_model.sd()
    }

    pub open spec fn md(&self) -> int {
        self.measurement_model.md()
    }

    /// Models agree on the state dimension, the history is non-empty,
    /// every waypoint is well-shaped, and consecutive timestamps advance
    /// by at most the largest admissible time step.
    pub open spec fn wf(&self) -> bool {
        &&& self.transition_model.valid()
        &&& self.measurement_model.valid()
        &&& self.transition_model.sd() == self.measurement_model.sd()
        &&& 1 <= self.sd() <= INV_DIM_MAX
        &&& 1 <= self.md() <= INV_DIM_MAX
        &&& self.track@.len() >= 1
        &&& forall|i: int| 0 <= i < self.track@.len() ==> (#[trigger] self.track@[i]).wf()
        &&& forall|i: int|
            0 <= i < self.track@.len() ==> (#[trigger] self.track@[i]).dim() == self.sd()
        &&& forall|i: int|
            0 <= i < self.track@.len()
                ==> (#[trigger] self.track@[i]).measurement.rows() == self.md()
        &&& forall|i: int|
            0 <= i < self.track@.len() - 1
                ==> 0 <= (#[trigger] self.track@[i + 1]).timestamp_ms - self.track@[i].timestamp_ms
                    <= MS_DT_MAX
    }

    /// Seeds a track with a single waypoint whose prediction and estimate
    /// are both the given initial state, and whose measurement is the zero
    /// vector.
    pub fn new(
        initial_state: GaussianState,
        transition_model: TModel,
        measurement_model: MModel,
        t0_ms: i64,
    ) -> (t: KalmanTrack<TModel, MModel>)
        requires
            transition_model.valid(),
            measurement_model.valid(),
            transition_model.sd() == measurement_model.sd(),
            1 <= transition_model.sd() <= INV_DIM_MAX,
            1 <= measurement_model.md() <= INV_DIM_MAX,
            initial_state.wf(),
            initial_state.dim() == transition_model.sd(),
            t0_ms >= 0,
        ensures
            t.wf(),
            !t.smoothed,
            t.transition_model == transition_model,
            t.measurement_model == measurement_model,
            t.track@.len() == 1,
            t.track@[0].timestamp_ms == t0_ms,
            t.track@[0].estimate.mean@ == initial_state.mean@,
            t.track@[0].estimate.cov@ == initial_state.cov@,
            t.track@[0].prediction.mean@ == initial_state.mean@,
            t.track@[0].prediction.cov@ == initial_state.cov@,
            forall|i: int, j: int|
                0 <= i < measurement_model.md() && j == 0
                    ==> #[trigger] t.track@[0].measurement@[i][j] == 0,
    {
        let md = measurement_model.mdim();
        let zero = Matrix::zeros(md, 1);
        let prediction = initial_state.duplicate();
        let seed = Waypoint::new(t0_ms, zero, prediction, initial_state);
        let mut track: Vec<Waypoint> = Vec::new();
        track.push(seed);
        KalmanTrack { transition_model, measurement_model, track, smoothed: false }
    }

    /// Drops the history and restarts from the given waypoint.
    pub fn reset(&mut self, initial_state: Waypoint)
        requires
            old(self).wf(),
            initial_state.wf(),
            initial_state.dim() == old(self).sd(),
            initial_state.measurement.rows() == old(self).md(),
        ensures
            final(self).wf(),
            final(self).transition_model == old(self).transition_model,
            final(self).measurement_model == old(self).measurement_model,
            final(self).track@ =~= seq![initial_state],
            !final(self).smoothed,
    {
        let mut track: Vec<Waypoint> = Vec::new();
        track.push(initial_state);
        self.track = track;
        self.smoothed = false;
    }

    /// Read-only view of the whole history.
    pub fn get_waypoints(&self) -> (w: &Vec<Waypoint>)
        ensures
            w@ == self.track@,
    {
        &self.track
    }

    /// Filters a new measurement into the track: predicts from the latest
    /// waypoint, folds the measurement in, and appends the resulting
    /// waypoint.  On failure the track is exactly as before the call.
    pub fn new_measurement(&mut self, measurement: Measurement) -> (r: Result<(), KalmanError>)
        requires
            old(self).wf(),
            measurement.wf(),
            measurement.dim() == old(self).md(),
            measurement.timestamp_ms >= old(self).track@.last().timestamp_ms,
            measurement.timestamp_ms - old(self).track@.last().timestamp_ms <= MS_DT_MAX,
        ensures
            final(self).wf(),
            final(self).transition_model == old(self).transition_model,
            final(self).measurement_model == old(self).measurement_model,
            final(self).smoothed == old(self).smoothed,
            ({
                let prior = old(self).track@.last().estimate;
                let dt = dt_fix_spec(
                    (measurement.timestamp_ms - old(self).track@.last().timestamp_ms) as i64,
                ) as i64;
                let f = old(self).transition_model.tmat_spec(dt);
                let q = old(self).transition_model.terr_spec(dt);
                let h = old(self).measurement_model.hmat_spec();
                let rr = old(self).measurement_model.herr_spec();
                let sd = old(self).sd();
                let md = old(self).md();
                let pm = predict_mean_spec(f, prior.mean@, sd);
                let pc = predict_cov_spec(f, q, prior.cov@, sd);
                let pok = predict_ok(f, q, prior.mean@, prior.cov@, sd);
                let uok = update_ok(h, rr, pm, pc, measurement.vector@, sd, md);
                match r {
                    Ok(()) => {
                        &&& pok
                        &&& uok
                        &&& final(self).track@.len() == old(self).track@.len() + 1
                        &&& forall|i: int|
                            0 <= i < old(self).track@.len()
                                ==> #[trigger] final(self).track@[i] == old(self).track@[i]
                        &&& final(self).track@.last().timestamp_ms == measurement.timestamp_ms
                        &&& final(self).track@.last().measurement@ == measurement.vector@
                        &&& final(self).track@.last().prediction.mean@ == pm
                        &&& final(self).track@.last().prediction.cov@ == pc
                        &&& final(self).track@.last().estimate.mean@ == update_mean_spec(h, rr,
                            pm, pc, measurement.vector@, sd, md)
                        &&& final(self).track@.last().estimate.cov@ == update_cov_spec(h, rr, pc,
                            sd, md)
                    },
                    Err(e) => {
                        &&& e == KalmanError::InversionFailure
                        &&& !(pok && uok)
                        &&& final(self).track@ == old(self).track@
                    },
                }
            }),
    {
        if self.track.len() == 0 {
            return Err(KalmanError::NotInitialized);
        }
        let n = self.track.len();
        let latest = &self.track[n - 1];
        let dt_ms = measurement.timestamp_ms - latest.timestamp_ms;
        let dt = dt_fix_of_ms(dt_ms);
        let f = self.transition_model.transition_matrix(dt);
        let q = self.transition_model.transition_error(dt);
        let prediction = match predict_state(&f, &q, &latest.estimate) {
            Some(p) => p,
            None => {
                return Err(KalmanError::InversionFailure);
            },
        };
        let h = self.measurement_model.measurement_matrix();
        let rr = self.measurement_model.measurement_error();
        let estimate = match update_state(&h, &rr, &prediction, &measurement.vector) {
            Some(e) => e,
            None => {
                return Err(KalmanError::InversionFailure);
            },
        };
        let waypoint = Waypoint::new(
            measurement.timestamp_ms,
            measurement.vector,
            prediction,
            estimate,
        );
        self.track.push(waypoint);
        Ok(())
    }

    /// One backward Rauch–Tung–Striebel pass over the whole history, from
    /// the second-to-last waypoint down to the first.  The last waypoint's
    /// estimate is left untouched; predictions, measurements and
    /// timestamps are never modified.  On failure the waypoints above the
    /// failing step keep their smoothed estimates and the rest are exactly
    /// as before.  A track is smoothed at most once.
    pub fn smooth(&mut self) -> (r: Result<(), KalmanError>)
        requires
            old(self).wf(),
            !old(self).smoothed,
        ensures
            final(self).wf(),
            final(self).smoothed,
            final(self).transition_model == old(self).transition_model,
            final(self).measurement_model == old(self).measurement_model,
            final(self).track@.len() == old(self).track@.len(),
            forall|i: int|
                0 <= i < old(self).track@.len() ==> #[trigger] final(self).track@[i].timestamp_ms
                    == old(self).track@[i].timestamp_ms,
            forall|i: int|
                0 <= i < old(self).track@.len() ==> #[trigger] final(self).track@[i].measurement@
                    == old(self).track@[i].measurement@,
            forall|i: int|
                0 <= i < old(self).track@.len()
                    ==> #[trigger] final(self).track@[i].prediction.mean@
                        == old(self).track@[i].prediction.mean@,
            forall|i: int|
                0 <= i < old(self).track@.len()
                    ==> #[trigger] final(self).track@[i].prediction.cov@
                        == old(self).track@[i].prediction.cov@,
            final(self).track@.last().estimate == old(self).track@.last().estimate,
            ({
                let ws = old(self).track@;
                let tm = old(self).transition_model;
                let sd = old(self).sd();
                let n = ws.len() as int;
                match r {
                    Ok(()) => {
                        &&& forall|i: int| 0 <= i < n - 1 ==> smooth_step_ok(tm, ws, sd, i)
                        &&& forall|i: int|
                            0 <= i < n ==> (#[trigger] final(self).track@[i].estimate.mean@,
                                final(self).track@[i].estimate.cov@) == smooth_rec(tm, ws, sd, i)
                    },
                    Err(e) => {
                        &&& e == KalmanError::InversionFailure
                        &&& exists|k: int|
                            {
                                &&& 0 <= k < n - 1
                                &&& !(#[trigger] smooth_step_ok(tm, ws, sd, k))
                                &&& forall|j: int|
                                    k < j < n - 1 ==> smooth_step_ok(tm, ws, sd, j)
                                &&& forall|j: int|
                                    k < j < n ==> (
                                        #[trigger] final(self).track@[j].estimate.mean@,
                                        final(self).track@[j].estimate.cov@,
                                    ) == smooth_rec(tm, ws, sd, j)
                                &&& forall|j: int|
                                    0 <= j <= k ==> #[trigger] final(self).track@[j]
                                        == old(self).track@[j]
                            }
                    },
                }
            }),
    {
        let ghost ws = self.track@;
        let ghost tm = self.transition_model;
        let ghost gsd = self.sd();
        let n = self.track.len();
        let mut i: usize = n - 1;
        while i >= 1
            invariant
                self.transition_model == old(self).transition_model,
                self.measurement_model == old(self).measurement_model,
                self.smoothed == old(self).smoothed,
                old(self).wf(),
                ws == old(self).track@,
                tm == old(self).transition_model,
                gsd == old(self).sd(),
                n == ws.len(),
                n >= 1,
                0 <= i <= n - 1,
                self.track@.len() == n,
                self.wf(),
                self.track@[n - 1] == ws[n - 1],
                forall|j: int| 0 <= j < i ==> #[trigger] self.track@[j] == ws[j],
                forall|j: int|
                    i <= j < n ==> (#[trigger] self.track@[j].estimate.mean@,
                        self.track@[j].estimate.cov@) == smooth_rec(tm, ws, gsd, j),
                forall|j: int|
                    i <= j < n ==> #[trigger] self.track@[j].timestamp_ms == ws[j].timestamp_ms,
                forall|j: int|
                    i <= j < n ==> #[trigger] self.track@[j].measurement@ == ws[j].measurement@,
                forall|j: int|
                    i <= j < n ==> #[trigger] self.track@[j].prediction.mean@
                        == ws[j].prediction.mean@,
                forall|j: int|
                    i <= j < n ==> #[trigger] self.track@[j].prediction.cov@
                        == ws[j].prediction.cov@,
                forall|j: int| i <= j < n - 1 ==> #[trigger] smooth_step_ok(tm, ws, gsd, j),
            decreases i,
        {
            let ghost k = (i - 1) as int;
            proof {
                assert(self.track@[k] == ws[k]);
                assert(self.track@[i as int].timestamp_ms == ws[i as int].timestamp_ms);
                assert(0 <= ws[k + 1].timestamp_ms - ws[k].timestamp_ms <= MS_DT_MAX);
            }
            let dt_ms = self.track[i].timestamp_ms - self.track[i - 1].timestamp_ms;
            let dt = dt_fix_of_ms(dt_ms);
            let next_pred = self.track[i].prediction.duplicate();
            let next_sm = self.track[i].estimate.duplicate();
            proof {
                assert((next_sm.mean@, next_sm.cov@) == smooth_rec(tm, ws, gsd, k + 1));
                assert(dt as int == dt_fix_spec(wp_dt_ms(ws, k)));
                assert(dt == dt_fix_spec(wp_dt_ms(ws, k)) as i64);
                assert(next_pred.mean@ == ws[k + 1].prediction.mean@);
                assert(next_pred.cov@ == ws[k + 1].prediction.cov@);
            }
            let stepped = smooth_step(
                &self.transition_model,
                dt,
                &self.track[i - 1].estimate,
                &next_pred,
                &next_sm,
            );
            match stepped {
                Some(new_est) => {
                    proof {
                        assert(smooth_step_ok(tm, ws, gsd, k));
                        assert((new_est.mean@, new_est.cov@) == smooth_rec(tm, ws, gsd, k));
                    }
                    let cur_ts = self.track[i - 1].timestamp_ms;
                    let cur_meas = self.track[i - 1].measurement.duplicate();
                    let cur_pred = self.track[i - 1].prediction.duplicate();
                    let new_wp = Waypoint::new(cur_ts, cur_meas, cur_pred, new_est);
                    self.track.set(i - 1, new_wp);
                },
                None => {
                    proof {
                        assert(!smooth_step_ok(tm, ws, gsd, k));
                    }
                    self.smoothed = true;
                    return Err(KalmanError::InversionFailure);
                },
            }
            i -= 1;
        }
        self.smoothed = true;
        Ok(())
    }
}

} // verus!
