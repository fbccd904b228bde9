//! Motion and measurement models.
//!
//! A transition model maps an elapsed time to the state-transition matrix
//! and the process-noise covariance; a measurement model supplies the
//! projection from state space to observation space and the measurement
//! noise.  Each model pins its matrices down exactly through spec
//! functions, so the filter built on top of them is deterministic.

use crate::fixed::{abs_i, div_i128, fmul, fmul_s, tdiv, FIX_BOUND, FIX_DT_MAX, FIX_ONE};
use crate::matrix::{grid_sym, Matrix, INV_DIM_MAX};
use vstd::arithmetic::div_mod::lemma_div_is_ordered;
use vstd::prelude::*;

verus! {

/// The dimension of the constant-velocity state `(x, y, vx, vy)`.
pub const STATE_DIM: usize = 4;

/// A linear motion model: state transition and process noise as functions
/// of the elapsed time, both pinned down exactly.
pub trait LinearTransitionModel: Sized {
    /// The model's internal parameters are in range.
    spec fn valid(&self) -> bool;

    /// The state dimension.
    spec fn sd(&self) -> int;

    /// The transition matrix, as a mathematical grid.
    spec fn tmat_spec(&self, dt: i64) -> Seq<Seq<int>>;

    /// The process-noise covariance, as a mathematical grid.
    spec fn terr_spec(&self, dt: i64) -> Seq<Seq<int>>;

    /// Returns the transition matrix for the elapsed time `dt`.
    fn transition_matrix(&self, dt: i64) -> (m: Matrix)
        requires
            self.valid(),
            0 <= dt <= FIX_DT_MAX,
        ensures
            m.wf(),
            m.rows() == self.sd(),
            m.cols() == self.sd(),
            m@ == self.tmat_spec(dt),
    ;

    /// Returns the process-noise covariance for the elapsed time `dt`.
    fn transition_error(&self, dt: i64) -> (q: Matrix)
        requires
            self.valid(),
            0 <= dt <= FIX_DT_MAX,
        ensures
            q.wf(),
            q.rows() == self.sd(),
            q.cols() == self.sd(),
            q@ == self.terr_spec(dt),
            grid_sym(q@),
    ;
}

/// A linear measurement model: the projection of the state into
/// observation space and the observation noise, both pinned down exactly.
pub trait LinearMeasurementModel: Sized {
    /// The model's internal parameters are in range.
    spec fn valid(&self) -> bool;

    /// The state dimension the model observes.
    spec fn sd(&self) -> int;

    /// The observation dimension.
    spec fn md(&self) -> int;

    /// The measurement matrix, as a mathematical grid.
    spec fn hmat_spec(&self) -> Seq<Seq<int>>;

    /// The measurement-noise covariance, as a mathematical grid.
    spec fn herr_spec(&self) -> Seq<Seq<int>>;

    /// Returns the observation dimension.
    fn mdim(&self) -> (m: usize)
        requires
            self.valid(),
        ensures
            m as int == self.md(),
    ;

    /// Returns the measurement matrix.
    fn measurement_matrix(&self) -> (h: Matrix)
        requires
            self.valid(),
        ensures
            h.wf(),
            h.rows() == self.md(),
            h.cols() == self.sd(),
            h@ == self.hmat_spec(),
    ;

    /// Returns the measurement-noise covariance.
    fn measurement_error(&self) -> (r: Matrix)
        requires
            self.valid(),
        ensures
            r.wf(),
            r.rows() == self.md(),
            r.cols() == self.md(),
            r@ == self.herr_spec(),
            grid_sym(r@),
    ;
}

// ---------------------------------------------------------------------------
// Constant-velocity motion model.
// ---------------------------------------------------------------------------

/// The transition matrix of the constant-velocity model: identity with the
/// elapsed time coupling position to velocity.
pub open spec fn cv_tmat(dt: i64) -> Seq<Seq<int>> {
    seq![
        seq![FIX_ONE as int, 0int, dt as int, 0int],
        seq![0int, FIX_ONE as int, 0int, dt as int],
        seq![0int, 0int, FIX_ONE as int, 0int],
        seq![0int, 0int, 0int, FIX_ONE as int],
    ]
}

/// `dt` squared, in fixed point.
pub open spec fn cv_p2(dt: i64) -> int {
    fmul_s(dt as int, dt as int)
}

/// `dt` cubed, in fixed point.
pub open spec fn cv_p3(dt: i64) -> int {
    fmul_s(cv_p2(dt), dt as int)
}

/// `dt^4 / 4`, in fixed point.
pub open spec fn cv_p4q(dt: i64) -> int {
    tdiv(fmul_s(cv_p3(dt), dt as int), 4)
}

/// `dt^3 / 2`, in fixed point.
pub open spec fn cv_p3h(dt: i64) -> int {
    tdiv(cv_p3(dt), 2)
}

/// The process-noise covariance of the constant-velocity model with drift
/// scalar `q`.
pub open spec fn cv_terr(q: i64, dt: i64) -> Seq<Seq<int>> {
    let e4 = fmul_s(q as int, cv_p4q(dt));
    let e3 = fmul_s(q as int, cv_p3h(dt));
    let e2 = fmul_s(q as int, cv_p2(dt));
    seq![
        seq![e4, 0int, e3, 0int],
        seq![0int, e4, 0int, e3],
        seq![e3, 0int, e2, 0int],
        seq![0int, e3, 0int, e2],
    ]
}

/// The constant-velocity transition model over the state `(x, y, vx, vy)`:
/// positions drift with their velocities, and a single scalar `q` sets the
/// strength of the process noise.
pub struct ConstantVelocity {
    pub q: i64,
}

impl ConstantVelocity {
    pub fn new(q: i64) -> (m: ConstantVelocity)
        requires
            0 <= q <= FIX_ONE,
        ensures
            m.q == q,
            m.valid(),
    {
        ConstantVelocity { q }
    }
}

impl LinearTransitionModel for ConstantVelocity {
    open spec fn valid(&self) -> bool {
        0 <= self.q <= FIX_ONE
    }

    open spec fn sd(&self) -> int {
        STATE_DIM as int
    }

    open spec fn tmat_spec(&self, dt: i64) -> Seq<Seq<int>> {
        cv_tmat(dt)
    }

    open spec fn terr_spec(&self, dt: i64) -> Seq<Seq<int>> {
        cv_terr(self.q, dt)
    }

    fn transition_matrix(&self, dt: i64) -> (m: Matrix)
    {
        let mut rows: Vec<Vec<i64>> = Vec::new();
        let mut r0: Vec<i64> = Vec::new();
        r0.push(FIX_ONE);
        r0.push(0);
        r0.push(dt);
        r0.push(0);
        let mut r1: Vec<i64> = Vec::new();
        r1.push(0);
        r1.push(FIX_ONE);
        r1.push(0);
        r1.push(dt);
        let mut r2: Vec<i64> = Vec::new();
        r2.push(0);
        r2.push(0);
        r2.push(FIX_ONE);
        r2.push(0);
        let mut r3: Vec<i64> = Vec::new();
        r3.push(0);
        r3.push(0);
        r3.push(0);
        r3.push(FIX_ONE);
        rows.push(r0);
        rows.push(r1);
        rows.push(r2);
        rows.push(r3);
        proof {
            assert(crate::matrix::grid_of(rows@) =~~= cv_tmat(dt));
            assert(crate::matrix::grid_wf(cv_tmat(dt)));
        }
        let m = Matrix::from_rows(rows);
        match m {
            Some(m) => m,
            None => {
                proof {
                    assert(false);
                }
                unreached()
            },
        }
    }

    fn transition_error(&self, dt: i64) -> (q: Matrix)
    {
        proof {
            lemma_cv_pow_bounds(dt);
        }
        let p2 = fmul(dt, dt);
        let p3 = fmul(p2, dt);
        let p4 = fmul(p3, dt);
        let p4q = div_i128(p4 as i128, 4) as i64;
        let p3h = div_i128(p3 as i128, 2) as i64;
        proof {
            crate::fixed::lemma_tdiv_bound(p4 as int, 4, abs_i(p4 as int));
            crate::fixed::lemma_tdiv_bound(p3 as int, 2, abs_i(p3 as int));
        }
        let e4 = fmul(self.q, p4q);
        let e3 = fmul(self.q, p3h);
        let e2 = fmul(self.q, p2);
        proof {
            lemma_cv_entry_bounds(self.q, dt, p2 as int, p3 as int, p4 as int, p4q as int,
                p3h as int, e4 as int, e3 as int, e2 as int);
        }
        let mut rows: Vec<Vec<i64>> = Vec::new();
        let mut r0: Vec<i64> = Vec::new();
        r0.push(e4);
        r0.push(0);
        r0.push(e3);
        r0.push(0);
        let mut r1: Vec<i64> = Vec::new();
        r1.push(0);
        r1.push(e4);
        r1.push(0);
        r1.push(e3);
        let mut r2: Vec<i64> = Vec::new();
        r2.push(e3);
        r2.push(0);
        r2.push(e2);
        r2.push(0);
        let mut r3: Vec<i64> = Vec::new();
        r3.push(0);
        r3.push(e3);
        r3.push(0);
        r3.push(e2);
        rows.push(r0);
        rows.push(r1);
        rows.push(r2);
        rows.push(r3);
        proof {
            assert(crate::matrix::grid_of(rows@) =~~= cv_terr(self.q, dt));
            assert(crate::matrix::grid_wf(cv_terr(self.q, dt)));
        }
        let m = Matrix::from_rows(rows);
        match m {
            Some(m) => {
                proof {
                    assert(grid_sym(m@));
                }
                m
            },
            None => {
                proof {
                    assert(false);
                }
                unreached()
            },
        }
    }
}

// ---------------------------------------------------------------------------
// Measurement models.
// ---------------------------------------------------------------------------

/// The projection onto the two position components of the state.
pub open spec fn xy_hmat() -> Seq<Seq<int>> {
    seq![
        seq![FIX_ONE as int, 0int, 0int, 0int],
        seq![0int, FIX_ONE as int, 0int, 0int],
    ]
}

/// Diagonal position-noise covariance.
pub open spec fn xy_herr(ex: i64, ey: i64) -> Seq<Seq<int>> {
    seq![seq![ex as int, 0int], seq![0int, ey as int]]
}

/// Builds the two-row projection matrix onto the position components.
fn build_xy_hmat() -> (h: Matrix)
    ensures
        h.wf(),
        h.rows() == 2,
        h.cols() == STATE_DIM as int,
        h@ == xy_hmat(),
{
    let mut rows: Vec<Vec<i64>> = Vec::new();
    let mut r0: Vec<i64> = Vec::new();
    r0.push(FIX_ONE);
    r0.push(0);
    r0.push(0);
    r0.push(0);
    let mut r1: Vec<i64> = Vec::new();
    r1.push(0);
    r1.push(FIX_ONE);
    r1.push(0);
    r1.push(0);
    rows.push(r0);
    rows.push(r1);
    proof {
        assert(crate::matrix::grid_of(rows@) =~~= xy_hmat());
        assert(crate::matrix::grid_wf(xy_hmat()));
    }
    match Matrix::from_rows(rows) {
        Some(h) => h,
        None => {
            proof {
                assert(false);
            }
            unreached()
        },
    }
}

/// Builds a two-by-two diagonal noise matrix.
fn build_xy_herr(ex: i64, ey: i64) -> (r: Matrix)
    requires
        0 <= ex <= FIX_BOUND,
        0 <= ey <= FIX_BOUND,
    ensures
        r.wf(),
        r.rows() == 2,
        r.cols() == 2,
        r@ == xy_herr(ex, ey),
        grid_sym(r@),
{
    let mut v: Vec<i64> = Vec::new();
    v.push(ex);
    v.push(ey);
    let m = Matrix::diagonal(v);
    proof {
        assert(m@ =~~= xy_herr(ex, ey));
    }
    m
}

/// The position-only measurement model: only `(x, y)` is observed, with a
/// separate noise scalar for each axis.
pub struct XYMeasurementModel {
    pub error_x: i64,
    pub error_y: i64,
}

impl XYMeasurementModel {
    pub fn new(error_x: i64, error_y: i64) -> (m: XYMeasurementModel)
        requires
            0 <= error_x <= FIX_BOUND,
            0 <= error_y <= FIX_BOUND,
        ensures
            m.error_x == error_x,
            m.error_y == error_y,
            m.valid(),
    {
        XYMeasurementModel { error_x, error_y }
    }
}

impl LinearMeasurementModel for XYMeasurementModel {
    open spec fn valid(&self) -> bool {
        0 <= self.error_x <= FIX_BOUND && 0 <= self.error_y <= FIX_BOUND
    }

    open spec fn sd(&self) -> int {
        STATE_DIM as int
    }

    open spec fn md(&self) -> int {
        2
    }

    open spec fn hmat_spec(&self) -> Seq<Seq<int>> {
        xy_hmat()
    }

    open spec fn herr_spec(&self) -> Seq<Seq<int>> {
        xy_herr(self.error_x, self.error_y)
    }

    fn mdim(&self) -> (m: usize) {
        2
    }

    fn measurement_matrix(&self) -> (h: Matrix) {
        build_xy_hmat()
    }

    fn measurement_error(&self) -> (r: Matrix) {
        build_xy_herr(self.error_x, self.error_y)
    }
}

/// The position-only measurement model under the name the estimator stack
/// uses; it observes `(x, y)` with diagonal noise.
pub struct PositionMeasurementModel {
    pub error_x: i64,
    pub error_y: i64,
}

impl PositionMeasurementModel {
    pub fn new(error_x: i64, error_y: i64) -> (m: PositionMeasurementModel)
        requires
            0 <= error_x <= FIX_BOUND,
            0 <= error_y <= FIX_BOUND,
        ensures
            m.error_x == error_x,
            m.error_y == error_y,
            m.valid(),
    {
        PositionMeasurementModel { error_x, error_y }
    }
}

impl LinearMeasurementModel for PositionMeasurementModel {
    open spec fn valid(&self) -> bool {
        0 <= self.error_x <= FIX_BOUND && 0 <= self.error_y <= FIX_BOUND
    }

    open spec fn sd(&self) -> int {
        STATE_DIM as int
    }

    open spec fn md(&self) -> int {
        2
    }

    open spec fn hmat_spec(&self) -> Seq<Seq<int>> {
        xy_hmat()
    }

    open spec fn herr_spec(&self) -> Seq<Seq<int>> {
        xy_herr(self.error_x, self.error_y)
    }

    fn mdim(&self) -> (m: usize) {
        2
    }

    fn measurement_matrix(&self) -> (h: Matrix) {
        build_xy_hmat()
    }

    fn measurement_error(&self) -> (r: Matrix) {
        build_xy_herr(self.error_x, self.error_y)
    }
}

/// The measure-all model: every state variable is observed directly, with
/// a diagonal noise matrix supplied at construction.
pub struct MeasureAllModel {
    pub measurement_matrix: Matrix,
    pub measurement_error: Matrix,
}

impl MeasureAllModel {
    pub fn new(diagonal: Vec<i64>) -> (m: MeasureAllModel)
        requires
            1 <= diagonal@.len() <= INV_DIM_MAX,
            forall|i: int|
                0 <= i < diagonal@.len() ==> abs_i(#[trigger] diagonal@[i] as int)
                    <= FIX_BOUND as int,
        ensures
            m.valid(),
            m.md() == diagonal@.len(),
            m.sd() == diagonal@.len(),
            forall|i: int|
                0 <= i < diagonal@.len() ==> #[trigger] m.herr_spec()[i][i] == diagonal@[i] as int,
            forall|i: int, j: int|
                0 <= i < diagonal@.len() && 0 <= j < diagonal@.len() && i != j
                    ==> #[trigger] m.herr_spec()[i][j] == 0,
            forall|i: int|
                0 <= i < diagonal@.len() ==> #[trigger] m.hmat_spec()[i][i] == FIX_ONE as int,
            forall|i: int, j: int|
                0 <= i < diagonal@.len() && 0 <= j < diagonal@.len() && i != j
                    ==> #[trigger] m.hmat_spec()[i][j] == 0,
    {
        let n = diagonal.len();
        let h = Matrix::identity(n);
        let r = Matrix::diagonal(diagonal);
        MeasureAllModel { measurement_matrix: h, measurement_error: r }
    }
}

impl LinearMeasurementModel for MeasureAllModel {
    open spec fn valid(&self) -> bool {
        &&& self.measurement_matrix.wf()
        &&& self.measurement_error.wf()
        &&& 1 <= self.measurement_matrix.rows() <= INV_DIM_MAX
        &&& self.measurement_matrix.cols() == self.measurement_matrix.rows()
        &&& self.measurement_error.rows() == self.measurement_matrix.rows()
        &&& self.measurement_error.cols() == self.measurement_matrix.rows()
        &&& grid_sym(self.measurement_error@)
    }

    open spec fn sd(&self) -> int {
        self.measurement_matrix.rows()
    }

    open spec fn md(&self) -> int {
        self.measurement_matrix.rows()
    }

    open spec fn hmat_spec(&self) -> Seq<Seq<int>> {
        self.measurement_matrix@
    }

    open spec fn herr_spec(&self) -> Seq<Seq<int>> {
        self.measurement_error@
    }

    fn mdim(&self) -> (m: usize) {
        self.measurement_matrix.nrows()
    }

    fn measurement_matrix(&self) -> (h: Matrix) {
        self.measurement_matrix.duplicate()
    }

    fn measurement_error(&self) -> (r: Matrix) {
        self.measurement_error.duplicate()
    }
}

/// Bounds on the fixed-point powers of an admissible time step.
proof fn lemma_cv_pow_bounds(dt: i64)
    requires
        0 <= dt <= FIX_DT_MAX,
    ensures
        abs_i(fmul_s(dt as int, dt as int)) <= 9 * FIX_ONE as int,
        abs_i(fmul_s(cv_p2(dt), dt as int)) <= 27 * FIX_ONE as int,
        abs_i(fmul_s(cv_p3(dt), dt as int)) <= 81 * FIX_ONE as int,
{
    let d = dt as int;
    let s = FIX_ONE as int;
    assert(abs_i(d * d) <= (FIX_DT_MAX as int) * (FIX_DT_MAX as int)) by (nonlinear_arith)
        requires 0 <= d <= FIX_DT_MAX as int;
    crate::fixed::lemma_tdiv_bound(d * d, s, (FIX_DT_MAX as int) * (FIX_DT_MAX as int));
    assert((FIX_DT_MAX as int) * (FIX_DT_MAX as int) / s == 9 * s) by (nonlinear_arith)
        requires FIX_DT_MAX as int == 196608, s == 65536;
    let p2 = cv_p2(dt);
    assert(abs_i(p2 * d) <= (9 * s) * (FIX_DT_MAX as int)) by (nonlinear_arith)
        requires abs_i(p2) <= 9 * s, 0 <= d <= FIX_DT_MAX as int;
    crate::fixed::lemma_tdiv_bound(p2 * d, s, (9 * s) * (FIX_DT_MAX as int));
    assert((9 * s) * (FIX_DT_MAX as int) / s == 27 * s) by (nonlinear_arith)
        requires FIX_DT_MAX as int == 196608, s == 65536;
    let p3 = cv_p3(dt);
    assert(abs_i(p3 * d) <= (27 * s) * (FIX_DT_MAX as int)) by (nonlinear_arith)
        requires abs_i(p3) <= 27 * s, 0 <= d <= FIX_DT_MAX as int;
    crate::fixed::lemma_tdiv_bound(p3 * d, s, (27 * s) * (FIX_DT_MAX as int));
    assert((27 * s) * (FIX_DT_MAX as int) / s == 81 * s) by (nonlinear_arith)
        requires FIX_DT_MAX as int == 196608, s == 65536;
}

/// The process-noise entries stay within the scalar range.
proof fn lemma_cv_entry_bounds(
    q: i64,
    dt: i64,
    p2: int,
    p3: int,
    p4: int,
    p4q: int,
    p3h: int,
    e4: int,
    e3: int,
    e2: int,
)
    requires
        0 <= q <= FIX_ONE,
        0 <= dt <= FIX_DT_MAX,
        p2 == cv_p2(dt),
        p3 == cv_p3(dt),
        p4 == fmul_s(cv_p3(dt), dt as int),
        p4q == cv_p4q(dt),
        p3h == cv_p3h(dt),
        e4 == fmul_s(q as int, p4q),
        e3 == fmul_s(q as int, p3h),
        e2 == fmul_s(q as int, p2),
        abs_i(e4) <= abs_i(q as int) * abs_i(p4q) / (FIX_ONE as int),
        abs_i(e3) <= abs_i(q as int) * abs_i(p3h) / (FIX_ONE as int),
        abs_i(e2) <= abs_i(q as int) * abs_i(p2) / (FIX_ONE as int),
    ensures
        abs_i(e4) <= FIX_BOUND as int,
        abs_i(e3) <= FIX_BOUND as int,
        abs_i(e2) <= FIX_BOUND as int,
{
    lemma_cv_pow_bounds(dt);
    let s = FIX_ONE as int;
    crate::fixed::lemma_tdiv_bound(p4, 4, 81 * s);
    crate::fixed::lemma_tdiv_bound(p3, 2, 27 * s);
    assert(abs_i(q as int) * abs_i(p4q) <= s * (81 * s)) by (nonlinear_arith)
        requires 0 <= q as int <= s, abs_i(p4q) <= 81 * s;
    lemma_div_is_ordered(abs_i(q as int) * abs_i(p4q), s * (81 * s), s);
    assert(s * (81 * s) / s == 81 * s) by (nonlinear_arith) requires s == 65536;
    assert(abs_i(q as int) * abs_i(p3h) <= s * (27 * s)) by (nonlinear_arith)
        requires 0 <= q as int <= s, abs_i(p3h) <= 27 * s;
    lemma_div_is_ordered(abs_i(q as int) * abs_i(p3h), s * (27 * s), s);
    assert(s * (27 * s) / s == 27 * s) by (nonlinear_arith) requires s == 65536;
    assert(abs_i(q as int) * abs_i(p2) <= s * (9 * s)) by (nonlinear_arith)
        requires 0 <= q as int <= s, abs_i(p2) <= 9 * s;
    lemma_div_is_ordered(abs_i(q as int) * abs_i(p2), s * (9 * s), s);
    assert(s * (9 * s) / s == 9 * s) by (nonlinear_arith) requires s == 65536;
}

} // verus!
