//! Laws of the filter, proved once and for all over the spec-level
//! algebra that the executable functions' contracts are stated in.

use crate::fixed::{fmul_s, tdiv, FIX_ONE};
use crate::kalman::{
    gain_spec, innov_cov_spec, innov_spec, predict_cov_spec, predict_mean_spec, predict_ok,
    proj_spec, update_cov_spec, update_mean_spec,
};
use crate::matrix::{
    grid_in_range, grid_psd, grid_sym, lemma_add_sub_sym, lemma_qform_sym,
    lemma_qform_trace_nonneg, lemma_sum_eq, lemma_trace_sub, mul_spec, qform_spec, qsum, sub_spec,
    sum, trace_spec, wf_grid,
};
use crate::model::{cv_p2, cv_p3, cv_p3h, cv_p4q, cv_terr, cv_tmat, LinearTransitionModel};
use vstd::prelude::*;

verus! {

/// Prediction is a pure function: from equal priors over an equal time
/// step, both the success of the step and its outcome agree exactly, so
/// predicting twice from the same input gives the same output.
pub proof fn lemma_predict_pure<TModel: LinearTransitionModel>(
    tm: TModel,
    mean1: Seq<Seq<int>>,
    cov1: Seq<Seq<int>>,
    mean2: Seq<Seq<int>>,
    cov2: Seq<Seq<int>>,
    dt: i64,
    sd: int,
)
    requires
        mean1 == mean2,
        cov1 == cov2,
    ensures
        predict_ok(tm.tmat_spec(dt), tm.terr_spec(dt), mean1, cov1, sd) == predict_ok(
            tm.tmat_spec(dt), tm.terr_spec(dt), mean2, cov2, sd),
        predict_mean_spec(tm.tmat_spec(dt), mean1, sd) == predict_mean_spec(tm.tmat_spec(dt),
            mean2, sd),
        predict_cov_spec(tm.tmat_spec(dt), tm.terr_spec(dt), cov1, sd) == predict_cov_spec(
            tm.tmat_spec(dt), tm.terr_spec(dt), cov2, sd),
{
}

/// Over a zero time step the constant-velocity process noise vanishes
/// entirely.
pub proof fn lemma_cv_zero_dt_noise(q: i64)
    ensures
        forall|i: int, j: int| 0 <= i < 4 && 0 <= j < 4 ==> #[trigger] cv_terr(q, 0)[i][j] == 0,
{
    crate::fixed::lemma_tdiv_zero_num(FIX_ONE as int);
    assert(cv_p2(0) == tdiv(0, FIX_ONE as int));
    assert(cv_p2(0) == 0);
    assert(cv_p3(0) == tdiv(0, FIX_ONE as int));
    crate::fixed::lemma_tdiv_zero_num(4);
    crate::fixed::lemma_tdiv_zero_num(2);
    assert(fmul_s(cv_p3(0), 0) == tdiv(0, FIX_ONE as int));
    assert(cv_p4q(0) == 0);
    assert(cv_p3h(0) == 0);
    assert(fmul_s(q as int, 0) == tdiv(q as int * 0, FIX_ONE as int));
    assert(q as int * 0 == 0) by (nonlinear_arith);
    assert(fmul_s(q as int, 0) == 0);
}

/// Over a zero time step the constant-velocity prediction leaves both the
/// mean and the covariance exactly unchanged, and the step always
/// succeeds.
pub proof fn lemma_cv_predict_zero_dt(q: i64, mean: Seq<Seq<int>>, cov: Seq<Seq<int>>)
    requires
        wf_grid(mean, 4, 1),
        wf_grid(cov, 4, 4),
        grid_in_range(mean),
        grid_in_range(cov),
    ensures
        predict_mean_spec(cv_tmat(0), mean, 4) == mean,
        predict_cov_spec(cv_tmat(0), cv_terr(q, 0), cov, 4) == cov,
        predict_ok(cv_tmat(0), cv_terr(q, 0), mean, cov, 4),
{
    let s = FIX_ONE as int;
    let f = cv_tmat(0);
    lemma_cv_zero_dt_noise(q);

    // The predicted mean: each row of F picks out S times one mean entry.
    let pm = predict_mean_spec(f, mean, 4);
    assert forall|i: int| 0 <= i < 4 implies #[trigger] pm[i] =~= mean[i] by {
        let g = |k: int| f[i][k] * mean[k][0];
        reveal_with_fuel(sum, 5);
        assert(sum(4, g) == g(0) + g(1) + g(2) + g(3));
        assert(g(0) == f[i][0] * mean[0][0]);
        assert(g(1) == f[i][1] * mean[1][0]);
        assert(g(2) == f[i][2] * mean[2][0]);
        assert(g(3) == f[i][3] * mean[3][0]);
        assert(sum(4, g) == mean[i][0] * s) by (nonlinear_arith)
            requires
                0 <= i < 4,
                sum(4, g) == g(0) + g(1) + g(2) + g(3),
                g(0) == f[i][0] * mean[0][0],
                g(1) == f[i][1] * mean[1][0],
                g(2) == f[i][2] * mean[2][0],
                g(3) == f[i][3] * mean[3][0],
                f[0][0] == s && f[0][1] == 0 && f[0][2] == 0 && f[0][3] == 0,
                f[1][0] == 0 && f[1][1] == s && f[1][2] == 0 && f[1][3] == 0,
                f[2][0] == 0 && f[2][1] == 0 && f[2][2] == s && f[2][3] == 0,
                f[3][0] == 0 && f[3][1] == 0 && f[3][2] == 0 && f[3][3] == s,
        ;
        crate::fixed::lemma_tdiv_exact(mean[i][0], s);
        assert(pm[i][0] == mean[i][0]);
    }
    assert(pm =~~= mean);

    // The propagated covariance: the quadratic form against the identity
    // scales by S twice and the single rescaling division removes both.
    let qf = qform_spec(f, cov, 4, 4);
    assert forall|i: int, j: int| 0 <= i < 4 && 0 <= j < 4
        implies #[trigger] qf[i][j] == cov[i][j] by {
        reveal_with_fuel(sum, 5);
        let inner = |k: int| sum(4, |l: int| cov[k][l] * f[j][l]);
        let outer = |k: int| f[i][k] * inner(k);
        assert forall|k: int| 0 <= k < 4 implies #[trigger] inner(k) == cov[k][j] * s by {
            let il = |l: int| cov[k][l] * f[j][l];
            assert(sum(4, il) == il(0) + il(1) + il(2) + il(3));
            assert(il(0) == cov[k][0] * f[j][0]);
            assert(il(1) == cov[k][1] * f[j][1]);
            assert(il(2) == cov[k][2] * f[j][2]);
            assert(il(3) == cov[k][3] * f[j][3]);
            assert(sum(4, il) == cov[k][j] * s) by (nonlinear_arith)
                requires
                    0 <= j < 4,
                    sum(4, il) == il(0) + il(1) + il(2) + il(3),
                    il(0) == cov[k][0] * f[j][0],
                    il(1) == cov[k][1] * f[j][1],
                    il(2) == cov[k][2] * f[j][2],
                    il(3) == cov[k][3] * f[j][3],
                    f[0][0] == s && f[0][1] == 0 && f[0][2] == 0 && f[0][3] == 0,
                    f[1][0] == 0 && f[1][1] == s && f[1][2] == 0 && f[1][3] == 0,
                    f[2][0] == 0 && f[2][1] == 0 && f[2][2] == s && f[2][3] == 0,
                    f[3][0] == 0 && f[3][1] == 0 && f[3][2] == 0 && f[3][3] == s,
            ;
        }
        assert(qsum(f, cov, i, j, 4) == sum(4, outer));
        assert(sum(4, outer) == outer(0) + outer(1) + outer(2) + outer(3));
        assert(outer(0) == f[i][0] * inner(0) && inner(0) == cov[0][j] * s);
        assert(outer(1) == f[i][1] * inner(1) && inner(1) == cov[1][j] * s);
        assert(outer(2) == f[i][2] * inner(2) && inner(2) == cov[2][j] * s);
        assert(outer(3) == f[i][3] * inner(3) && inner(3) == cov[3][j] * s);
        assert(sum(4, outer) == cov[i][j] * (s * s)) by (nonlinear_arith)
            requires
                0 <= i < 4,
                sum(4, outer) == outer(0) + outer(1) + outer(2) + outer(3),
                outer(0) == f[i][0] * inner(0) && inner(0) == cov[0][j] * s,
                outer(1) == f[i][1] * inner(1) && inner(1) == cov[1][j] * s,
                outer(2) == f[i][2] * inner(2) && inner(2) == cov[2][j] * s,
                outer(3) == f[i][3] * inner(3) && inner(3) == cov[3][j] * s,
                f[0][0] == s && f[0][1] == 0 && f[0][2] == 0 && f[0][3] == 0,
                f[1][0] == 0 && f[1][1] == s && f[1][2] == 0 && f[1][3] == 0,
                f[2][0] == 0 && f[2][1] == 0 && f[2][2] == s && f[2][3] == 0,
                f[3][0] == 0 && f[3][1] == 0 && f[3][2] == 0 && f[3][3] == s,
        ;
        crate::fixed::lemma_tdiv_exact(cov[i][j], s * s);
        assert(qf[i][j] == tdiv(cov[i][j] * (s * s), s * s));
    }

    let pc = predict_cov_spec(f, cv_terr(q, 0), cov, 4);
    assert forall|i: int| 0 <= i < 4 implies #[trigger] pc[i] =~= cov[i] by {
        assert forall|j: int| 0 <= j < 4 implies #[trigger] pc[i][j] == cov[i][j] by {
            assert(pc[i][j] == qf[i][j] + cv_terr(q, 0)[i][j]);
        }
    }
    assert(pc =~~= cov);
}

/// A measurement equal to the model's projection of the predicted mean
/// leaves the mean unchanged by the update: the innovation is exactly
/// zero, so the correction vanishes whatever the gain is.
pub proof fn lemma_update_mean_fixed_point(
    h: Seq<Seq<int>>,
    r: Seq<Seq<int>>,
    mean: Seq<Seq<int>>,
    cov: Seq<Seq<int>>,
    z: Seq<Seq<int>>,
    sd: int,
    md: int,
)
    requires
        0 <= sd,
        0 <= md,
        wf_grid(mean, sd, 1),
        z == proj_spec(h, mean, sd, md),
    ensures
        update_mean_spec(h, r, mean, cov, z, sd, md) == mean,
{
    let innov = innov_spec(h, mean, z, sd, md);
    assert forall|i: int, j: int| 0 <= i < md && j == 0
        implies #[trigger] innov[i][j] == 0 by {
        assert(innov[i][0] == z[i][0] - proj_spec(h, mean, sd, md)[i][0]);
    }
    let g = gain_spec(h, r, cov, sd, md);
    let corr = mul_spec(g, innov, sd, md, 1);
    assert forall|i: int| 0 <= i < sd implies #[trigger] corr[i][0] == 0 by {
        let t = |k: int| g[i][k] * innov[k][0];
        assert forall|k: int| 0 <= k < md implies #[trigger] t(k) == 0 by {
            assert(innov[k][0] == 0);
            assert(g[i][k] * 0 == 0) by (nonlinear_arith);
        }
        lemma_sum_eq(md as nat, t, |k: int| 0);
        lemma_sum_zero_terms(md as nat);
        crate::fixed::lemma_tdiv_zero_num(FIX_ONE as int);
    }
    let um = update_mean_spec(h, r, mean, cov, z, sd, md);
    assert forall|i: int| 0 <= i < sd implies #[trigger] um[i] =~= mean[i] by {
        assert(um[i][0] == mean[i][0] + corr[i][0]);
    }
    assert(um =~~= mean);
}

proof fn lemma_sum_zero_terms(n: nat)
    ensures
        sum(n, |k: int| 0) == 0,
    decreases n,
{
    if n > 0 {
        lemma_sum_zero_terms((n - 1) as nat);
    }
}

/// For well-conditioned inputs the update never grows the uncertainty:
/// with a symmetric covariance and noise, the updated covariance stays
/// exactly symmetric, and whenever the computed innovation covariance is
/// positive semi-definite over integer vectors, the trace does not
/// increase.
pub proof fn lemma_update_cov_sym_trace(
    h: Seq<Seq<int>>,
    r: Seq<Seq<int>>,
    cov: Seq<Seq<int>>,
    sd: int,
    md: int,
)
    requires
        1 <= sd,
        1 <= md,
        wf_grid(h, md, sd),
        wf_grid(r, md, md),
        wf_grid(cov, sd, sd),
        grid_sym(cov),
        grid_sym(r),
        grid_psd(innov_cov_spec(h, r, cov, sd, md), md),
    ensures
        grid_sym(update_cov_spec(h, r, cov, sd, md)),
        trace_spec(update_cov_spec(h, r, cov, sd, md), sd) <= trace_spec(cov, sd),
{
    let s = innov_cov_spec(h, r, cov, sd, md);
    let qh = qform_spec(h, cov, md, sd);
    lemma_qform_sym(h, cov, md, sd);
    assert(wf_grid(qh, md, md));
    lemma_add_sub_sym(qh, r, md);
    assert(grid_sym(s));

    let g = gain_spec(h, r, cov, sd, md);
    assert(wf_grid(g, sd, md));
    assert(wf_grid(s, md, md));
    let ksk = qform_spec(g, s, sd, md);
    lemma_qform_sym(g, s, sd, md);
    assert(wf_grid(ksk, sd, sd));
    lemma_add_sub_sym(cov, ksk, sd);
    assert(update_cov_spec(h, r, cov, sd, md) == sub_spec(cov, ksk));

    lemma_qform_trace_nonneg(g, s, sd, md);
    lemma_trace_sub(cov, ksk, sd);
}

} // verus!
