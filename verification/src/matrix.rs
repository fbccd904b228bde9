//! Fixed-point matrices.
//!
//! A matrix holds `i64` scalars in the fixed-point encoding of
//! [`crate::fixed`], laid out as a vector of rows.  Every operation states
//! its result exactly, entry by entry, over mathematical integers: products
//! are accumulated without intermediate rounding and rescaled once with
//! truncating division, so the contracts pin down each bit of the outcome.
//!
//! Operations whose result could leave the scalar range return `None`
//! instead of a clipped value; the contracts say precisely when that
//! happens.

use crate::fixed::{abs_i, div_i128, tdiv, FIX_BOUND, FIX_ONE};
use vstd::prelude::*;

verus! {

/// Largest row or column count a matrix may have.  Small dimensions keep
/// all 128-bit intermediate sums far from overflow.
pub const DIM_MAX: usize = 16;

/// Largest dimension for which a determinant (and so an inverse) is
/// computed; a four-dimensional state is the largest this library models.
pub const INV_DIM_MAX: usize = 4;

// ---------------------------------------------------------------------------
// Finite sums over spec-level functions.
// ---------------------------------------------------------------------------

/// The sum `f(0) + f(1) + ... + f(n - 1)`.
pub open spec fn sum(n: nat, f: spec_fn(int) -> int) -> int
    decreases n,
{
    if n == 0 {
        0
    } else {
        sum((n - 1) as nat, f) + f(n - 1)
    }
}

/// Functions equal on `0..n` have equal sums.
pub proof fn lemma_sum_eq(n: nat, f: spec_fn(int) -> int, g: spec_fn(int) -> int)
    requires
        forall|k: int| 0 <= k < n ==> #[trigger] f(k) == g(k),
    ensures
        sum(n, f) == sum(n, g),
    decreases n,
{
    if n > 0 {
        lemma_sum_eq((n - 1) as nat, f, g);
    }
}

/// A sum of pointwise-bounded terms is bounded by `n` times the bound.
pub proof fn lemma_sum_bound(n: nat, f: spec_fn(int) -> int, b: int)
    requires
        b >= 0,
        forall|k: int| 0 <= k < n ==> abs_i(#[trigger] f(k)) <= b,
    ensures
        abs_i(sum(n, f)) <= n * b,
    decreases n,
{
    if n > 0 {
        lemma_sum_bound((n - 1) as nat, f, b);
        assert((n - 1) * b + b == n * b) by (nonlinear_arith);
    }
}

/// A sum of nonnegative terms is nonnegative.
pub proof fn lemma_sum_nonneg(n: nat, f: spec_fn(int) -> int)
    requires
        forall|k: int| 0 <= k < n ==> #[trigger] f(k) >= 0,
    ensures
        sum(n, f) >= 0,
    decreases n,
{
    if n > 0 {
        lemma_sum_nonneg((n - 1) as nat, f);
    }
}

/// Summation distributes over pointwise addition.
pub proof fn lemma_sum_add(
    n: nat,
    f: spec_fn(int) -> int,
    g: spec_fn(int) -> int,
    h: spec_fn(int) -> int,
)
    requires
        forall|k: int| 0 <= k < n ==> #[trigger] h(k) == f(k) + g(k),
    ensures
        sum(n, h) == sum(n, f) + sum(n, g),
    decreases n,
{
    if n > 0 {
        lemma_sum_add((n - 1) as nat, f, g, h);
    }
}

/// A constant factor moves out of a sum.
pub proof fn lemma_sum_mul_const(n: nat, f: spec_fn(int) -> int, g: spec_fn(int) -> int, c: int)
    requires
        forall|k: int| 0 <= k < n ==> #[trigger] g(k) == c * f(k),
    ensures
        sum(n, g) == c * sum(n, f),
    decreases n,
{
    if n == 0 {
        assert(c * 0 == 0) by (nonlinear_arith);
    } else {
        lemma_sum_mul_const((n - 1) as nat, f, g, c);
        assert(c * sum((n - 1) as nat, f) + c * f(n - 1) == c * (sum((n - 1) as nat, f) + f(n - 1)))
            by (nonlinear_arith);
    }
}

/// The order of a finite double sum can be exchanged.
pub proof fn lemma_sum_exchange(n: nat, m: nat, f: spec_fn(int, int) -> int)
    ensures
        sum(n, |k: int| sum(m, |l: int| f(k, l))) == sum(m, |l: int| sum(n, |k: int| f(k, l))),
    decreases n,
{
    let outer_n = |k: int| sum(m, |l: int| f(k, l));
    let outer_m = |l: int| sum(n, |k: int| f(k, l));
    if n == 0 {
        assert forall|l: int| 0 <= l < m implies #[trigger] outer_m(l) == 0 by {
            assert(sum(0, |k: int| f(k, l)) == 0);
        }
        lemma_sum_eq(m, outer_m, |l: int| 0);
        lemma_sum_zero(m);
    } else {
        let n1 = (n - 1) as nat;
        let prev_m = |l: int| sum(n1, |k: int| f(k, l));
        let last_row = |l: int| f(n - 1, l);
        lemma_sum_exchange(n1, m, f);
        // sum over the first n-1 rows, plus the last row, column by column.
        assert forall|l: int| 0 <= l < m implies #[trigger] outer_m(l) == prev_m(l) + last_row(l)
        by {
            reveal_with_fuel(sum, 2);
        }
        lemma_sum_add(m, prev_m, last_row, outer_m);
        assert(sum(n, outer_n) == sum(n1, outer_n) + outer_n(n - 1));
        lemma_sum_eq(n1, outer_n, |k: int| sum(m, |l: int| f(k, l)));
    }
}

proof fn lemma_sum_zero(n: nat)
    ensures
        sum(n, |k: int| 0) == 0,
    decreases n,
{
    if n > 0 {
        lemma_sum_zero((n - 1) as nat);
    }
}

// ---------------------------------------------------------------------------
// Spec-level matrix algebra over sequences of rows.
// ---------------------------------------------------------------------------

/// `m` is an `r` by `c` grid of integers.
pub open spec fn wf_grid(m: Seq<Seq<int>>, r: int, c: int) -> bool {
    &&& m.len() == r
    &&& forall|i: int| 0 <= i < r ==> (#[trigger] m[i]).len() == c
}

/// Every entry of the grid has magnitude at most `b`.
pub open spec fn grid_bounded(m: Seq<Seq<int>>, b: int) -> bool {
    forall|i: int, j: int|
        0 <= i < m.len() && 0 <= j < m[i].len() ==> abs_i(#[trigger] m[i][j]) <= b
}

/// The grid is symmetric.
pub open spec fn grid_sym(m: Seq<Seq<int>>) -> bool {
    forall|i: int, j: int|
        0 <= i < m.len() && 0 <= j < m.len() ==> #[trigger] m[i][j] == m[j][i]
}

/// Entrywise sum.
pub open spec fn add_spec(a: Seq<Seq<int>>, b: Seq<Seq<int>>) -> Seq<Seq<int>> {
    Seq::new(a.len(), |i: int| Seq::new(a[i].len(), |j: int| a[i][j] + b[i][j]))
}

/// Entrywise difference.
pub open spec fn sub_spec(a: Seq<Seq<int>>, b: Seq<Seq<int>>) -> Seq<Seq<int>> {
    Seq::new(a.len(), |i: int| Seq::new(a[i].len(), |j: int| a[i][j] - b[i][j]))
}

/// The transpose.
pub open spec fn transpose_spec(a: Seq<Seq<int>>, r: int, c: int) -> Seq<Seq<int>> {
    Seq::new(c as nat, |i: int| Seq::new(r as nat, |j: int| a[j][i]))
}

/// The exact (unrounded) inner product of row `i` of `a` with column `j` of
/// `b`, over `p` terms.
pub open spec fn mul_dot(a: Seq<Seq<int>>, b: Seq<Seq<int>>, i: int, j: int, p: int) -> int {
    sum(p as nat, |k: int| a[i][k] * b[k][j])
}

/// One entry of the fixed-point matrix product: the exact inner product,
/// rescaled once by truncating division.
pub open spec fn mul_entry(a: Seq<Seq<int>>, b: Seq<Seq<int>>, i: int, j: int, p: int) -> int {
    tdiv(mul_dot(a, b, i, j, p), FIX_ONE as int)
}

/// The fixed-point matrix product of an `r` by `p` grid with a `p` by `c`
/// grid.
pub open spec fn mul_spec(a: Seq<Seq<int>>, b: Seq<Seq<int>>, r: int, p: int, c: int)
    -> Seq<Seq<int>> {
    Seq::new(r as nat, |i: int| Seq::new(c as nat, |j: int| mul_entry(a, b, i, j, p)))
}

/// The exact quadratic-form accumulation `sum_{k,l} a[i][k] b[k][l] a[j][l]`.
pub open spec fn qsum(a: Seq<Seq<int>>, b: Seq<Seq<int>>, i: int, j: int, p: int) -> int {
    sum(p as nat, |k: int| a[i][k] * sum(p as nat, |l: int| b[k][l] * a[j][l]))
}

/// One entry of `a * b * transpose(a)`, accumulated exactly and rescaled by
/// a single truncating division.
pub open spec fn qform_entry(a: Seq<Seq<int>>, b: Seq<Seq<int>>, i: int, j: int, p: int) -> int {
    tdiv(qsum(a, b, i, j, p), (FIX_ONE as int) * (FIX_ONE as int))
}

/// The fixed-point quadratic form `a * b * transpose(a)` of an `r` by `p`
/// grid `a` with a `p` by `p` grid `b`.
pub open spec fn qform_spec(a: Seq<Seq<int>>, b: Seq<Seq<int>>, r: int, p: int) -> Seq<Seq<int>> {
    Seq::new(r as nat, |i: int| Seq::new(r as nat, |j: int| qform_entry(a, b, i, j, p)))
}

/// The trace of a square grid.
pub open spec fn trace_spec(m: Seq<Seq<int>>, n: int) -> int {
    sum(n as nat, |i: int| m[i][i])
}

/// The quadratic form of a vector `v` against a square grid `m`.
pub open spec fn quad_vec(v: Seq<int>, m: Seq<Seq<int>>, n: int) -> int {
    sum(n as nat, |k: int| v[k] * sum(n as nat, |l: int| m[k][l] * v[l]))
}

/// `m` is positive semi-definite over integer vectors.
pub open spec fn grid_psd(m: Seq<Seq<int>>, n: int) -> bool {
    forall|v: Seq<int>| v.len() == n ==> quad_vec(v, m, n) >= 0
}

/// All entries of a grid lie within the scalar range the library keeps.
pub open spec fn grid_in_range(m: Seq<Seq<int>>) -> bool {
    grid_bounded(m, FIX_BOUND as int)
}

/// A grid that a [`Matrix`] can hold: rectangular, non-empty, no larger
/// than `DIM_MAX` in either direction, with every entry in range.
pub open spec fn grid_wf(g: Seq<Seq<int>>) -> bool {
    &&& 1 <= g.len() <= DIM_MAX
    &&& 1 <= g[0].len() <= DIM_MAX
    &&& forall|i: int| 0 <= i < g.len() ==> (#[trigger] g[i]).len() == g[0].len()
    &&& grid_in_range(g)
}

// ---------------------------------------------------------------------------
// Determinant and inverse, by cofactor expansion.
// ---------------------------------------------------------------------------

/// The sign `(-1)^j` of a cofactor.
pub open spec fn sign_of(j: int) -> int {
    if j % 2 == 0 {
        1
    } else {
        -1
    }
}

/// The grid with row `r` and column `c` removed from an `n` by `n` grid.
pub open spec fn minor_spec(m: Seq<Seq<int>>, r: int, c: int, n: int) -> Seq<Seq<int>> {
    Seq::new(
        (n - 1) as nat,
        |i: int| Seq::new(
            (n - 1) as nat,
            |j: int| m[if i < r { i } else { i + 1 }][if j < c { j } else { j + 1 }],
        ),
    )
}

/// The determinant of an `n` by `n` grid, by Laplace expansion along the
/// first row.  The empty grid has determinant one, which makes the
/// adjugate of a one-by-one matrix come out right.
pub open spec fn det_spec(m: Seq<Seq<int>>, n: nat) -> int
    decreases n, n + 1,
{
    if n == 0 {
        1
    } else if n == 1 {
        m[0][0]
    } else {
        laplace(m, n, 0)
    }
}

/// The partial Laplace expansion `sum_{t >= j} (-1)^t m[0][t] det(minor_t)`.
pub open spec fn laplace(m: Seq<Seq<int>>, n: nat, j: nat) -> int
    decreases n, n - j,
{
    if j >= n {
        0
    } else {
        sign_of(j as int) * m[0][j as int] * det_spec(minor_spec(m, 0, j as int, n as int), (n
            - 1) as nat) + laplace(m, n, j + 1)
    }
}

/// One cofactor: the signed determinant of a minor.
pub open spec fn cof_spec(m: Seq<Seq<int>>, n: int, i: int, j: int) -> int {
    sign_of(i + j) * det_spec(minor_spec(m, i, j, n), (n - 1) as nat)
}

/// One entry of the fixed-point inverse, by Cramer's rule: the transposed
/// cofactor, rescaled so that the entry again carries the library's
/// fixed-point scale, divided by the determinant.
pub open spec fn inv_entry(m: Seq<Seq<int>>, n: int, i: int, j: int) -> int {
    tdiv(cof_spec(m, n, j, i) * ((FIX_ONE as int) * (FIX_ONE as int)), det_spec(m, n as nat))
}

/// The fixed-point inverse of an `n` by `n` grid.
pub open spec fn inv_spec(m: Seq<Seq<int>>, n: int) -> Seq<Seq<int>> {
    Seq::new(n as nat, |i: int| Seq::new(n as nat, |j: int| inv_entry(m, n, i, j)))
}

pub open spec fn fact(n: nat) -> nat
    decreases n,
{
    if n == 0 {
        1
    } else {
        n * fact((n - 1) as nat)
    }
}

pub open spec fn bpow(b: int, n: nat) -> int
    decreases n,
{
    if n == 0 {
        1
    } else {
        b * bpow(b, (n - 1) as nat)
    }
}

/// The magnitude bound `n! * FIX_BOUND^n` that a determinant of a bounded
/// `n` by `n` grid respects.
pub open spec fn det_abs_bound(n: nat) -> int {
    fact(n) as int * bpow(FIX_BOUND as int, n)
}

proof fn lemma_dab_unfold(n: nat)
    requires
        n >= 1,
    ensures
        det_abs_bound(n) == n * (FIX_BOUND as int) * det_abs_bound((n - 1) as nat),
        det_abs_bound(n) >= 0,
        det_abs_bound((n - 1) as nat) >= 0,
    decreases n,
{
    reveal_with_fuel(fact, 2);
    reveal_with_fuel(bpow, 2);
    if n == 1 {
        assert(fact(1) == 1 * fact(0));
        assert(bpow(FIX_BOUND as int, 1) == FIX_BOUND as int * bpow(FIX_BOUND as int, 0));
        assert(det_abs_bound(1) == FIX_BOUND as int);
        assert(det_abs_bound(0) == 1);
    } else {
        lemma_dab_unfold((n - 1) as nat);
        assert(fact(n) == n * fact((n - 1) as nat));
        assert(bpow(FIX_BOUND as int, n) == FIX_BOUND as int * bpow(FIX_BOUND as int, (n
            - 1) as nat));
        assert(fact(n) as int * bpow(FIX_BOUND as int, n) == n * (FIX_BOUND as int) * (fact((n
            - 1) as nat) as int * bpow(FIX_BOUND as int, (n - 1) as nat))) by (nonlinear_arith)
            requires
                fact(n) == n * fact((n - 1) as nat),
                bpow(FIX_BOUND as int, n) == FIX_BOUND as int * bpow(FIX_BOUND as int, (n
                    - 1) as nat),
        ;
        assert(n * (FIX_BOUND as int) * det_abs_bound((n - 1) as nat) >= 0) by (nonlinear_arith)
            requires n >= 1, det_abs_bound((n - 1) as nat) >= 0;
    }
}

/// Concrete values of the determinant bound for the dimensions this
/// library inverts.  The bound itself always fits 128 bits, and for the
/// minors (dimension at most three) it still fits after the two extra
/// fixed-point scale factors of Cramer's rule are multiplied in.
proof fn lemma_dab_cap(n: nat)
    requires
        n <= INV_DIM_MAX,
    ensures
        det_abs_bound(n) < i128::MAX as int,
        det_abs_bound(n) >= 1,
        n < INV_DIM_MAX ==> det_abs_bound(n) * ((FIX_ONE as int) * (FIX_ONE as int))
            < i128::MAX as int,
{
    reveal_with_fuel(fact, 6);
    reveal_with_fuel(bpow, 6);
    let b = FIX_BOUND as int;
    let s2 = (FIX_ONE as int) * (FIX_ONE as int);
    assert(s2 == 0x100000000) by (nonlinear_arith)
        requires
            s2 == (FIX_ONE as int) * (FIX_ONE as int),
            FIX_ONE as int == 0x10000,
    ;
    if n == 0 {
        assert(det_abs_bound(0) == 1);
    } else if n == 1 {
        assert(fact(1) == 1);
        assert(det_abs_bound(1) == b * 1);
    } else if n == 2 {
        assert(fact(2) == 2);
        assert(det_abs_bound(2) == 2 * (b * (b * 1)));
        assert(2 * (b * (b * 1)) == 0x2000000000000000 && 0x2000000000000000 * 0x100000000
            < i128::MAX as int) by (nonlinear_arith)
            requires b == 0x40000000;
    } else if n == 3 {
        assert(fact(3) == 6);
        assert(det_abs_bound(3) == 6 * (b * (b * (b * 1))));
        assert(6 * (b * (b * (b * 1))) == 0x180000000000000000000000
            && 0x180000000000000000000000 * 0x100000000 < i128::MAX as int) by (nonlinear_arith)
            requires b == 0x40000000;
    } else {
        assert(n == 4);
        assert(fact(4) == 24);
        assert(det_abs_bound(4) == 24 * (b * (b * (b * (b * 1)))));
        assert(24 * (b * (b * (b * (b * 1)))) == 0x18000000000000000000000000000000
            && 0x18000000000000000000000000000000 < i128::MAX as int) by (nonlinear_arith)
            requires b == 0x40000000;
    }
}

// ---------------------------------------------------------------------------
// Symmetry and trace facts about the spec-level algebra.
// ---------------------------------------------------------------------------

/// Entrywise sums and differences preserve symmetry.
pub proof fn lemma_add_sub_sym(a: Seq<Seq<int>>, b: Seq<Seq<int>>, n: int)
    requires
        wf_grid(a, n, n),
        wf_grid(b, n, n),
        grid_sym(a),
        grid_sym(b),
    ensures
        grid_sym(add_spec(a, b)),
        grid_sym(sub_spec(a, b)),
{
}

/// The exact quadratic-form accumulation against a symmetric core is
/// itself symmetric in its two row indices.
pub proof fn lemma_qsum_sym(a: Seq<Seq<int>>, b: Seq<Seq<int>>, i: int, j: int, p: int)
    requires
        p >= 0,
        wf_grid(b, p, p),
        grid_sym(b),
        0 <= i < a.len(),
        0 <= j < a.len(),
        a[i].len() == p,
        a[j].len() == p,
    ensures
        qsum(a, b, i, j, p) == qsum(a, b, j, i, p),
{
    let t = |k: int, l: int| a[i][k] * (b[k][l] * a[j][l]);
    let t2 = |k: int, l: int| a[j][k] * (b[k][l] * a[i][l]);
    let fo = |k: int| a[i][k] * sum(p as nat, |l: int| b[k][l] * a[j][l]);
    let fo2 = |k: int| a[j][k] * sum(p as nat, |l: int| b[k][l] * a[i][l]);
    let rows_t = |k: int| sum(p as nat, |l: int| t(k, l));
    let rows_t2 = |k: int| sum(p as nat, |l: int| t2(k, l));
    let cols_t = |l: int| sum(p as nat, |k: int| t(k, l));

    // The rounded-out factor distributes into the inner sums.
    assert forall|k: int| 0 <= k < p implies #[trigger] fo(k) == rows_t(k) by {
        lemma_sum_mul_const(
            p as nat,
            |l: int| b[k][l] * a[j][l],
            |l: int| t(k, l),
            a[i][k],
        );
    }
    lemma_sum_eq(p as nat, fo, rows_t);
    assert forall|k: int| 0 <= k < p implies #[trigger] fo2(k) == rows_t2(k) by {
        lemma_sum_mul_const(
            p as nat,
            |l: int| b[k][l] * a[i][l],
            |l: int| t2(k, l),
            a[j][k],
        );
    }
    lemma_sum_eq(p as nat, fo2, rows_t2);

    // Exchange the double sum of the left-hand side.
    lemma_sum_exchange(p as nat, p as nat, t);

    // Column sums of t are row sums of t2, by symmetry of b.
    assert forall|l: int| 0 <= l < p implies #[trigger] cols_t(l) == rows_t2(l) by {
        assert forall|k: int| 0 <= k < p implies #[trigger] t(k, l) == t2(l, k) by {
            assert(b[k][l] == b[l][k]);
            assert(a[i][k] * (b[k][l] * a[j][l]) == a[j][l] * (b[l][k] * a[i][k]))
                by (nonlinear_arith)
                requires b[k][l] == b[l][k];
        }
        lemma_sum_eq(p as nat, |k: int| t(k, l), |k: int| t2(l, k));
    }
    lemma_sum_eq(p as nat, cols_t, rows_t2);
}

/// The fixed-point quadratic form against a symmetric core is symmetric.
pub proof fn lemma_qform_sym(a: Seq<Seq<int>>, b: Seq<Seq<int>>, r: int, p: int)
    requires
        p >= 0,
        r >= 0,
        wf_grid(a, r, p),
        wf_grid(b, p, p),
        grid_sym(b),
    ensures
        grid_sym(qform_spec(a, b, r, p)),
{
    let q = qform_spec(a, b, r, p);
    assert forall|i: int, j: int| 0 <= i < q.len() && 0 <= j < q.len()
        implies #[trigger] q[i][j] == q[j][i] by {
        lemma_qsum_sym(a, b, i, j, p);
    }
}

/// The diagonal of the exact quadratic-form accumulation is the quadratic
/// form of the corresponding row vector.
pub proof fn lemma_qsum_diag(a: Seq<Seq<int>>, b: Seq<Seq<int>>, i: int, p: int)
    requires
        p >= 0,
        0 <= i < a.len(),
        a[i].len() == p,
    ensures
        qsum(a, b, i, i, p) == quad_vec(a[i], b, p),
{
    let v = a[i];
    let f1 = |k: int| a[i][k] * sum(p as nat, |l: int| b[k][l] * a[i][l]);
    let f2 = |k: int| v[k] * sum(p as nat, |l: int| b[k][l] * v[l]);
    assert forall|k: int| 0 <= k < p implies #[trigger] f1(k) == f2(k) by {
        lemma_sum_eq(p as nat, |l: int| b[k][l] * a[i][l], |l: int| b[k][l] * v[l]);
    }
    lemma_sum_eq(p as nat, f1, f2);
}

/// Against a positive semi-definite core, the fixed-point quadratic form
/// has a nonnegative trace: truncation toward zero keeps each nonnegative
/// diagonal entry nonnegative.
pub proof fn lemma_qform_trace_nonneg(a: Seq<Seq<int>>, b: Seq<Seq<int>>, r: int, p: int)
    requires
        p >= 0,
        r >= 0,
        wf_grid(a, r, p),
        wf_grid(b, p, p),
        grid_psd(b, p),
    ensures
        trace_spec(qform_spec(a, b, r, p), r) >= 0,
{
    let q = qform_spec(a, b, r, p);
    assert forall|i: int| 0 <= i < r implies #[trigger] q[i][i] >= 0 by {
        lemma_qsum_diag(a, b, i, p);
        assert(quad_vec(a[i], b, p) >= 0);
        crate::fixed::lemma_tdiv_nonneg(qsum(a, b, i, i, p), (FIX_ONE as int) * (FIX_ONE as int));
    }
    lemma_sum_nonneg(r as nat, |i: int| q[i][i]);
}

/// The trace of an entrywise difference is the difference of the traces.
pub proof fn lemma_trace_sub(a: Seq<Seq<int>>, b: Seq<Seq<int>>, n: int)
    requires
        n >= 0,
        wf_grid(a, n, n),
        wf_grid(b, n, n),
    ensures
        trace_spec(sub_spec(a, b), n) == trace_spec(a, n) - trace_spec(b, n),
{
    let s = sub_spec(a, b);
    let neg_b = |i: int| -b[i][i];
    lemma_sum_add(n as nat, |i: int| a[i][i], neg_b, |i: int| s[i][i]);
    lemma_sum_mul_const(n as nat, |i: int| b[i][i], neg_b, -1);
    assert((-1) * sum(n as nat, |i: int| b[i][i]) == -trace_spec(b, n)) by (nonlinear_arith)
        requires trace_spec(b, n) == sum(n as nat, |i: int| b[i][i]);
}

// ---------------------------------------------------------------------------
// The executable matrix type.
// ---------------------------------------------------------------------------

/// The grid of integers denoted by a vector of rows of scalars.
pub open spec fn grid_of(d: Seq<Vec<i64>>) -> Seq<Seq<int>> {
    Seq::new(d.len(), |i: int| Seq::new(d[i]@.len(), |j: int| d[i]@[j] as int))
}

/// A fixed-point matrix, stored as a vector of rows.
pub struct Matrix {
    d: Vec<Vec<i64>>,
}

impl View for Matrix {
    type V = Seq<Seq<int>>;

    closed spec fn view(&self) -> Seq<Seq<int>> {
        grid_of(self.d@)
    }
}

impl Matrix {
    /// Shape and range invariant: a rectangular, non-empty grid of bounded
    /// scalars, no wider or taller than `DIM_MAX`.
    pub open spec fn wf(&self) -> bool {
        grid_wf(self@)
    }

    pub open spec fn rows(&self) -> int {
        self@.len() as int
    }

    pub open spec fn cols(&self) -> int {
        self@[0].len() as int
    }

    pub fn nrows(&self) -> (r: usize)
        ensures
            r == self@.len(),
    {
        self.d.len()
    }

    pub fn ncols(&self) -> (c: usize)
        requires
            self.wf(),
        ensures
            c == self.cols(),
    {
        proof {
            assert(self@.len() == self.d@.len());
            assert(self@[0].len() == self.d@[0]@.len());
        }
        self.d[0].len()
    }

    pub fn get(&self, i: usize, j: usize) -> (x: i64)
        requires
            self.wf(),
            i < self.rows(),
            j < self.cols(),
        ensures
            x == self@[i as int][j as int],
    {
        proof {
            assert(self@.len() == self.d@.len());
            assert(self@[i as int].len() == self.d@[i as int]@.len());
            assert(self@[i as int][j as int] == self.d@[i as int]@[j as int] as int);
        }
        self.d[i][j]
    }

    /// Builds a matrix from explicit rows, refusing shapes or scalars the
    /// library cannot hold.
    pub fn from_rows(rows_in: Vec<Vec<i64>>) -> (r: Option<Matrix>)
        ensures
            match r {
                Some(m) => m@ == grid_of(rows_in@) && m.wf(),
                None => !grid_wf(grid_of(rows_in@)),
            },
    {
        let g = Ghost(grid_of(rows_in@));
        if rows_in.len() < 1 || rows_in.len() > DIM_MAX {
            return None;
        }
        let c = rows_in[0].len();
        if c < 1 || c > DIM_MAX {
            return None;
        }
        let mut i: usize = 0;
        while i < rows_in.len()
            invariant
                g@ == grid_of(rows_in@),
                c == g@[0].len(),
                1 <= c <= DIM_MAX,
                1 <= rows_in@.len() <= DIM_MAX,
                i <= rows_in@.len(),
                forall|i2: int| 0 <= i2 < i ==> (#[trigger] g@[i2]).len() == c,
                forall|i2: int, j2: int|
                    0 <= i2 < i && 0 <= j2 < g@[i2].len()
                        ==> abs_i(#[trigger] g@[i2][j2]) <= FIX_BOUND as int,
            decreases rows_in@.len() - i,
        {
            if rows_in[i].len() != c {
                proof {
                    assert(g@[i as int].len() != c);
                    assert(!grid_wf(g@));
                }
                return None;
            }
            let mut j: usize = 0;
            while j < c
                invariant
                    g@ == grid_of(rows_in@),
                    i < rows_in@.len(),
                    g@[i as int].len() == c,
                    j <= c,
                    forall|j2: int|
                        0 <= j2 < j ==> abs_i(#[trigger] g@[i as int][j2]) <= FIX_BOUND as int,
            decreases c - j,
            {
                let x = rows_in[i][j];
                if x < -FIX_BOUND || x > FIX_BOUND {
                    proof {
                        assert(abs_i(g@[i as int][j as int]) > FIX_BOUND as int);
                        assert(!grid_wf(g@));
                    }
                    return None;
                }
                j += 1;
            }
            i += 1;
        }
        let m = Matrix { d: rows_in };
        proof {
            assert(m@ == g@);
            assert(m.wf());
        }
        Some(m)
    }

    /// Builds a column vector.
    pub fn column(v: Vec<i64>) -> (r: Option<Matrix>)
        ensures
            match r {
                Some(m) => {
                    &&& m.wf()
                    &&& m@.len() == v@.len()
                    &&& m.cols() == 1
                    &&& forall|i: int| 0 <= i < v@.len() ==> #[trigger] m@[i][0] == v@[i] as int
                },
                None => !(1 <= v@.len() <= DIM_MAX && forall|i: int|
                    0 <= i < v@.len() ==> abs_i(#[trigger] v@[i] as int) <= FIX_BOUND as int),
            },
    {
        if v.len() < 1 || v.len() > DIM_MAX {
            return None;
        }
        let mut d: Vec<Vec<i64>> = Vec::new();
        let mut i: usize = 0;
        while i < v.len()
            invariant
                i <= v@.len(),
                1 <= v@.len() <= DIM_MAX,
                d@.len() == i,
                forall|i2: int| 0 <= i2 < i ==> (#[trigger] d@[i2])@.len() == 1,
                forall|i2: int| 0 <= i2 < i ==> (#[trigger] d@[i2])@[0] == v@[i2],
                forall|i2: int| 0 <= i2 < i
                    ==> abs_i(#[trigger] v@[i2] as int) <= FIX_BOUND as int,
            decreases v@.len() - i,
        {
            let x = v[i];
            if x < -FIX_BOUND || x > FIX_BOUND {
                proof {
                    assert(abs_i(v@[i as int] as int) > FIX_BOUND as int);
                }
                return None;
            }
            let mut row: Vec<i64> = Vec::new();
            row.push(x);
            d.push(row);
            i += 1;
        }
        let m = Matrix { d };
        proof {
            assert forall|i2: int| 0 <= i2 < m@.len() implies (#[trigger] m@[i2]).len() == 1 by {
                assert(m@[i2].len() == m.d@[i2]@.len());
            }
            assert forall|i2: int| 0 <= i2 < v@.len() implies #[trigger] m@[i2][0] == v@[i2] as int
            by {
                assert(m@[i2][0] == m.d@[i2]@[0] as int);
            }
            assert(grid_in_range(m@));
        }
        Some(m)
    }

    /// The all-zero matrix of the given shape.
    pub fn zeros(r: usize, c: usize) -> (m: Matrix)
        requires
            1 <= r <= DIM_MAX,
            1 <= c <= DIM_MAX,
        ensures
            m.wf(),
            m.rows() == r,
            m.cols() == c,
            forall|i: int, j: int| 0 <= i < r && 0 <= j < c ==> #[trigger] m@[i][j] == 0,
    {
        let mut d: Vec<Vec<i64>> = Vec::new();
        let mut i: usize = 0;
        while i < r
            invariant
                i <= r,
                d@.len() == i,
                forall|i2: int| 0 <= i2 < i ==> (#[trigger] d@[i2])@.len() == c,
                forall|i2: int, j2: int|
                    0 <= i2 < i && 0 <= j2 < c ==> #[trigger] d@[i2]@[j2] == 0,
            decreases r - i,
        {
            let mut row: Vec<i64> = Vec::new();
            let mut j: usize = 0;
            while j < c
                invariant
                    j <= c,
                    row@.len() == j,
                    forall|j2: int| 0 <= j2 < j ==> #[trigger] row@[j2] == 0,
                decreases c - j,
            {
                row.push(0);
                j += 1;
            }
            d.push(row);
            i += 1;
        }
        Matrix { d }
    }

    /// The square matrix with the given scalars on the diagonal and zeros
    /// elsewhere.
    pub fn diagonal(v: Vec<i64>) -> (m: Matrix)
        requires
            1 <= v@.len() <= DIM_MAX,
            forall|i: int| 0 <= i < v@.len() ==> abs_i(#[trigger] v@[i] as int) <= FIX_BOUND as int,
        ensures
            m.wf(),
            m.rows() == v@.len(),
            m.cols() == v@.len(),
            forall|i: int| 0 <= i < v@.len() ==> #[trigger] m@[i][i] == v@[i] as int,
            forall|i: int, j: int|
                0 <= i < v@.len() && 0 <= j < v@.len() && i != j ==> #[trigger] m@[i][j] == 0,
            grid_sym(m@),
    {
        let n = v.len();
        let mut d: Vec<Vec<i64>> = Vec::new();
        let mut i: usize = 0;
        while i < n
            invariant
                i <= n,
                n == v@.len(),
                1 <= n <= DIM_MAX,
                forall|i2: int| 0 <= i2 < n
                    ==> abs_i(#[trigger] v@[i2] as int) <= FIX_BOUND as int,
                d@.len() == i,
                forall|i2: int| 0 <= i2 < i ==> (#[trigger] d@[i2])@.len() == n,
                forall|i2: int| 0 <= i2 < i ==> #[trigger] d@[i2]@[i2] == v@[i2],
                forall|i2: int, j2: int|
                    0 <= i2 < i && 0 <= j2 < n && i2 != j2 ==> #[trigger] d@[i2]@[j2] == 0,
            decreases n - i,
        {
            let mut row: Vec<i64> = Vec::new();
            let mut j: usize = 0;
            while j < n
                invariant
                    j <= n,
                    i < n,
                    n == v@.len(),
                    row@.len() == j,
                    forall|j2: int|
                        0 <= j2 < j && j2 != i ==> #[trigger] row@[j2] == 0,
                    i < j ==> row@[i as int] == v@[i as int],
                decreases n - j,
            {
                if j == i {
                    row.push(v[i]);
                } else {
                    row.push(0);
                }
                j += 1;
            }
            d.push(row);
            i += 1;
        }
        Matrix { d }
    }

    /// The identity: ones on the diagonal in fixed-point encoding.
    pub fn identity(n: usize) -> (m: Matrix)
        requires
            1 <= n <= DIM_MAX,
        ensures
            m.wf(),
            m.rows() == n,
            m.cols() == n,
            forall|i: int| 0 <= i < n ==> #[trigger] m@[i][i] == FIX_ONE as int,
            forall|i: int, j: int|
                0 <= i < n && 0 <= j < n && i != j ==> #[trigger] m@[i][j] == 0,
            grid_sym(m@),
    {
        let mut v: Vec<i64> = Vec::new();
        let mut i: usize = 0;
        while i < n
            invariant
                i <= n,
                v@.len() == i,
                forall|i2: int| 0 <= i2 < i ==> #[trigger] v@[i2] == FIX_ONE,
            decreases n - i,
        {
            v.push(FIX_ONE);
            i += 1;
        }
        Matrix::diagonal(v)
    }

    /// The transpose.
    pub fn transpose(&self) -> (m: Matrix)
        requires
            self.wf(),
        ensures
            m.wf(),
            m.rows() == self.cols(),
            m.cols() == self.rows(),
            m@ == transpose_spec(self@, self.rows(), self.cols()),
    {
        let r = self.nrows();
        let c = self.ncols();
        let mut d: Vec<Vec<i64>> = Vec::new();
        let mut i: usize = 0;
        while i < c
            invariant
                i <= c,
                self.wf(),
                r == self.rows(),
                c == self.cols(),
                d@.len() == i,
                forall|i2: int| 0 <= i2 < i ==> (#[trigger] d@[i2])@.len() == r,
                forall|i2: int, j2: int|
                    0 <= i2 < i && 0 <= j2 < r
                        ==> #[trigger] d@[i2]@[j2] == self@[j2][i2],
            decreases c - i,
        {
            let mut row: Vec<i64> = Vec::new();
            let mut j: usize = 0;
            while j < r
                invariant
                    j <= r,
                    i < c,
                    self.wf(),
                    r == self.rows(),
                    c == self.cols(),
                    row@.len() == j,
                    forall|j2: int| 0 <= j2 < j ==> #[trigger] row@[j2] == self@[j2][i as int],
                decreases r - j,
            {
                row.push(self.get(j, i));
                j += 1;
            }
            d.push(row);
            i += 1;
        }
        let m = Matrix { d };
        proof {
            let t = transpose_spec(self@, self.rows(), self.cols());
            assert forall|i2: int| 0 <= i2 < m@.len() implies #[trigger] m@[i2] =~= t[i2] by {
            }
            assert(m@ =~~= t);
        }
        m
    }

    /// Entrywise sum.  `None` exactly when some entry of the sum would
    /// leave the scalar range.
    pub fn add(&self, o: &Matrix) -> (r: Option<Matrix>)
        requires
            self.wf(),
            o.wf(),
            self.rows() == o.rows(),
            self.cols() == o.cols(),
        ensures
            match r {
                Some(m) => {
                    &&& m.wf()
                    &&& m.rows() == self.rows()
                    &&& m.cols() == self.cols()
                    &&& m@ == add_spec(self@, o@)
                    &&& grid_in_range(add_spec(self@, o@))
                },
                None => !grid_in_range(add_spec(self@, o@)),
            },
    {
        let rn = self.nrows();
        let cn = self.ncols();
        let ghost sp = add_spec(self@, o@);
        let mut d: Vec<Vec<i64>> = Vec::new();
        let mut i: usize = 0;
        while i < rn
            invariant
                self.wf(),
                o.wf(),
                self.rows() == o.rows(),
                self.cols() == o.cols(),
                rn == self.rows(),
                cn == self.cols(),
                sp == add_spec(self@, o@),
                i <= rn,
                d@.len() == i,
                forall|i2: int| 0 <= i2 < i ==> (#[trigger] d@[i2])@.len() == cn,
                forall|i2: int, j2: int|
                    0 <= i2 < i && 0 <= j2 < cn
                        ==> #[trigger] d@[i2]@[j2] as int == sp[i2][j2],
                forall|i2: int, j2: int|
                    0 <= i2 < i && 0 <= j2 < cn
                        ==> abs_i(#[trigger] d@[i2]@[j2] as int) <= FIX_BOUND as int,
            decreases rn - i,
        {
            let mut row: Vec<i64> = Vec::new();
            let mut j: usize = 0;
            while j < cn
                invariant
                    self.wf(),
                    o.wf(),
                    self.rows() == o.rows(),
                    self.cols() == o.cols(),
                    rn == self.rows(),
                    cn == self.cols(),
                    sp == add_spec(self@, o@),
                    i < rn,
                    j <= cn,
                    row@.len() == j,
                    forall|j2: int|
                        0 <= j2 < j ==> #[trigger] row@[j2] as int == sp[i as int][j2],
                    forall|j2: int|
                        0 <= j2 < j ==> abs_i(#[trigger] row@[j2] as int) <= FIX_BOUND as int,
                decreases cn - j,
            {
                let x = self.get(i, j) + o.get(i, j);
                if x < -FIX_BOUND || x > FIX_BOUND {
                    proof {
                        assert(sp[i as int][j as int] == self@[i as int][j as int]
                            + o@[i as int][j as int]);
                        assert(abs_i(sp[i as int][j as int]) > FIX_BOUND as int);
                    }
                    return None;
                }
                proof {
                    assert(sp[i as int][j as int] == self@[i as int][j as int]
                        + o@[i as int][j as int]);
                }
                row.push(x);
                j += 1;
            }
            d.push(row);
            i += 1;
        }
        let m = Matrix { d };
        proof {
            assert forall|i2: int| 0 <= i2 < m@.len() implies #[trigger] m@[i2] =~= sp[i2] by {
            }
            assert(m@ =~~= sp);
            assert(grid_in_range(sp));
        }
        Some(m)
    }

    /// Entrywise difference.  `None` exactly when some entry of the
    /// difference would leave the scalar range.
    pub fn sub(&self, o: &Matrix) -> (r: Option<Matrix>)
        requires
            self.wf(),
            o.wf(),
            self.rows() == o.rows(),
            self.cols() == o.cols(),
        ensures
            match r {
                Some(m) => {
                    &&& m.wf()
                    &&& m.rows() == self.rows()
                    &&& m.cols() == self.cols()
                    &&& m@ == sub_spec(self@, o@)
                    &&& grid_in_range(sub_spec(self@, o@))
                },
                None => !grid_in_range(sub_spec(self@, o@)),
            },
    {
        let rn = self.nrows();
        let cn = self.ncols();
        let ghost sp = sub_spec(self@, o@);
        let mut d: Vec<Vec<i64>> = Vec::new();
        let mut i: usize = 0;
        while i < rn
            invariant
                self.wf(),
                o.wf(),
                self.rows() == o.rows(),
                self.cols() == o.cols(),
                rn == self.rows(),
                cn == self.cols(),
                sp == sub_spec(self@, o@),
                i <= rn,
                d@.len() == i,
                forall|i2: int| 0 <= i2 < i ==> (#[trigger] d@[i2])@.len() == cn,
                forall|i2: int, j2: int|
                    0 <= i2 < i && 0 <= j2 < cn
                        ==> #[trigger] d@[i2]@[j2] as int == sp[i2][j2],
                forall|i2: int, j2: int|
                    0 <= i2 < i && 0 <= j2 < cn
                        ==> abs_i(#[trigger] d@[i2]@[j2] as int) <= FIX_BOUND as int,
            decreases rn - i,
        {
            let mut row: Vec<i64> = Vec::new();
            let mut j: usize = 0;
            while j < cn
                invariant
                    self.wf(),
                    o.wf(),
                    self.rows() == o.rows(),
                    self.cols() == o.cols(),
                    rn == self.rows(),
                    cn == self.cols(),
                    sp == sub_spec(self@, o@),
                    i < rn,
                    j <= cn,
                    row@.len() == j,
                    forall|j2: int|
                        0 <= j2 < j ==> #[trigger] row@[j2] as int == sp[i as int][j2],
                    forall|j2: int|
                        0 <= j2 < j ==> abs_i(#[trigger] row@[j2] as int) <= FIX_BOUND as int,
                decreases cn - j,
            {
                let x = self.get(i, j) - o.get(i, j);
                if x < -FIX_BOUND || x > FIX_BOUND {
                    proof {
                        assert(sp[i as int][j as int] == self@[i as int][j as int]
                            - o@[i as int][j as int]);
                        assert(abs_i(sp[i as int][j as int]) > FIX_BOUND as int);
                    }
                    return None;
                }
                proof {
                    assert(sp[i as int][j as int] == self@[i as int][j as int]
                        - o@[i as int][j as int]);
                }
                row.push(x);
                j += 1;
            }
            d.push(row);
            i += 1;
        }
        let m = Matrix { d };
        proof {
            assert forall|i2: int| 0 <= i2 < m@.len() implies #[trigger] m@[i2] =~= sp[i2] by {
            }
            assert(m@ =~~= sp);
            assert(grid_in_range(sp));
        }
        Some(m)
    }

    /// Fixed-point matrix product.  Each entry accumulates its inner
    /// product exactly in 128 bits and is rescaled by one truncating
    /// division; `None` exactly when some rescaled entry would leave the
    /// scalar range.
    pub fn mul(&self, o: &Matrix) -> (r: Option<Matrix>)
        requires
            self.wf(),
            o.wf(),
            self.cols() == o.rows(),
        ensures
            match r {
                Some(m) => {
                    &&& m.wf()
                    &&& m.rows() == self.rows()
                    &&& m.cols() == o.cols()
                    &&& m@ == mul_spec(self@, o@, self.rows(), self.cols(), o.cols())
                    &&& grid_in_range(mul_spec(self@, o@, self.rows(), self.cols(), o.cols()))
                },
                None => !grid_in_range(mul_spec(self@, o@, self.rows(), self.cols(), o.cols())),
            },
    {
        let rn = self.nrows();
        let p = self.ncols();
        let cn = o.ncols();
        let ghost sp = mul_spec(self@, o@, self.rows(), self.cols(), o.cols());
        let ghost bb = (FIX_BOUND as int) * (FIX_BOUND as int);
        let mut d: Vec<Vec<i64>> = Vec::new();
        let mut i: usize = 0;
        while i < rn
            invariant
                self.wf(),
                o.wf(),
                self.cols() == o.rows(),
                rn == self.rows(),
                p == self.cols(),
                cn == o.cols(),
                sp == mul_spec(self@, o@, self.rows(), self.cols(), o.cols()),
                bb == (FIX_BOUND as int) * (FIX_BOUND as int),
                i <= rn,
                d@.len() == i,
                forall|i2: int| 0 <= i2 < i ==> (#[trigger] d@[i2])@.len() == cn,
                forall|i2: int, j2: int|
                    0 <= i2 < i && 0 <= j2 < cn
                        ==> #[trigger] d@[i2]@[j2] as int == sp[i2][j2],
                forall|i2: int, j2: int|
                    0 <= i2 < i && 0 <= j2 < cn
                        ==> abs_i(#[trigger] d@[i2]@[j2] as int) <= FIX_BOUND as int,
            decreases rn - i,
        {
            let mut row: Vec<i64> = Vec::new();
            let mut j: usize = 0;
            while j < cn
                invariant
                    self.wf(),
                    o.wf(),
                    self.cols() == o.rows(),
                    rn == self.rows(),
                    p == self.cols(),
                    cn == o.cols(),
                    sp == mul_spec(self@, o@, self.rows(), self.cols(), o.cols()),
                    bb == (FIX_BOUND as int) * (FIX_BOUND as int),
                    i < rn,
                    j <= cn,
                    row@.len() == j,
                    forall|j2: int|
                        0 <= j2 < j ==> #[trigger] row@[j2] as int == sp[i as int][j2],
                    forall|j2: int|
                        0 <= j2 < j ==> abs_i(#[trigger] row@[j2] as int) <= FIX_BOUND as int,
                decreases cn - j,
            {
                let ghost f = |k: int| self@[i as int][k] * o@[k][j as int];
                let mut acc: i128 = 0;
                let mut k: usize = 0;
                while k < p
                    invariant
                        self.wf(),
                        o.wf(),
                        self.cols() == o.rows(),
                        rn == self.rows(),
                        p == self.cols(),
                        cn == o.cols(),
                        bb == (FIX_BOUND as int) * (FIX_BOUND as int),
                        i < rn,
                        j < cn,
                        k <= p,
                        f == (|k2: int| self@[i as int][k2] * o@[k2][j as int]),
                        acc as int == sum(k as nat, f),
                        abs_i(acc as int) <= k * bb,
                    decreases p - k,
                {
                    let a = self.get(i, k);
                    let b = o.get(k, j);
                    proof {
                        assert(abs_i((a as int) * (b as int)) <= bb) by (nonlinear_arith)
                            requires
                                abs_i(a as int) <= FIX_BOUND as int,
                                abs_i(b as int) <= FIX_BOUND as int,
                                bb == (FIX_BOUND as int) * (FIX_BOUND as int);
                        assert((k + 1) * bb == k * bb + bb) by (nonlinear_arith);
                        assert(k * bb <= DIM_MAX as int * bb) by (nonlinear_arith)
                            requires 0 <= k <= DIM_MAX as int, bb >= 0;
                        assert(sum((k + 1) as nat, f) == sum(k as nat, f) + f(k as int));
                    }
                    let t: i128 = (a as i128) * (b as i128);
                    acc = acc + t;
                    k += 1;
                }
                proof {
                    assert(acc as int == mul_dot(self@, o@, i as int, j as int, p as int));
                    assert(abs_i(acc as int) <= p * bb);
                    assert(p * bb < i128::MAX as int) by (nonlinear_arith)
                        requires 0 <= p <= DIM_MAX as int,
                            bb == (FIX_BOUND as int) * (FIX_BOUND as int);
                }
                let e = div_i128(acc, FIX_ONE as i128);
                proof {
                    assert(e as int == mul_entry(self@, o@, i as int, j as int, p as int));
                    assert(sp[i as int][j as int]
                        == mul_entry(self@, o@, i as int, j as int, p as int));
                }
                if e < -(FIX_BOUND as i128) || e > FIX_BOUND as i128 {
                    proof {
                        assert(abs_i(sp[i as int][j as int]) > FIX_BOUND as int);
                    }
                    return None;
                }
                row.push(e as i64);
                j += 1;
            }
            d.push(row);
            i += 1;
        }
        let m = Matrix { d };
        proof {
            assert forall|i2: int| 0 <= i2 < m@.len() implies #[trigger] m@[i2] =~= sp[i2] by {
            }
            assert(m@ =~~= sp);
            assert(grid_in_range(sp));
        }
        Some(m)
    }

    /// The fixed-point quadratic form `self * b * transpose(self)`.  Each
    /// entry accumulates its three-factor double sum exactly in 128 bits
    /// and is rescaled by a single truncating division, so a symmetric `b`
    /// yields an exactly symmetric result.  `None` exactly when some entry
    /// would leave the scalar range.
    pub fn qform(&self, b: &Matrix) -> (r: Option<Matrix>)
        requires
            self.wf(),
            b.wf(),
            b.rows() == b.cols(),
            self.cols() == b.rows(),
        ensures
            match r {
                Some(m) => {
                    &&& m.wf()
                    &&& m.rows() == self.rows()
                    &&& m.cols() == self.rows()
                    &&& m@ == qform_spec(self@, b@, self.rows(), self.cols())
                    &&& grid_in_range(qform_spec(self@, b@, self.rows(), self.cols()))
                },
                None => !grid_in_range(qform_spec(self@, b@, self.rows(), self.cols())),
            },
    {
        let rn = self.nrows();
        let p = self.ncols();
        let ghost sp = qform_spec(self@, b@, self.rows(), self.cols());
        let ghost bb = (FIX_BOUND as int) * (FIX_BOUND as int);
        let ghost bbb = bb * (FIX_BOUND as int);
        let mut d: Vec<Vec<i64>> = Vec::new();
        let mut i: usize = 0;
        while i < rn
            invariant
                self.wf(),
                b.wf(),
                b.rows() == b.cols(),
                self.cols() == b.rows(),
                rn == self.rows(),
                p == self.cols(),
                sp == qform_spec(self@, b@, self.rows(), self.cols()),
                bb == (FIX_BOUND as int) * (FIX_BOUND as int),
                bbb == bb * (FIX_BOUND as int),
                i <= rn,
                d@.len() == i,
                forall|i2: int| 0 <= i2 < i ==> (#[trigger] d@[i2])@.len() == rn,
                forall|i2: int, j2: int|
                    0 <= i2 < i && 0 <= j2 < rn
                        ==> #[trigger] d@[i2]@[j2] as int == sp[i2][j2],
                forall|i2: int, j2: int|
                    0 <= i2 < i && 0 <= j2 < rn
                        ==> abs_i(#[trigger] d@[i2]@[j2] as int) <= FIX_BOUND as int,
            decreases rn - i,
        {
            let mut row: Vec<i64> = Vec::new();
            let mut j: usize = 0;
            while j < rn
                invariant
                    self.wf(),
                    b.wf(),
                    b.rows() == b.cols(),
                    self.cols() == b.rows(),
                    rn == self.rows(),
                    p == self.cols(),
                    sp == qform_spec(self@, b@, self.rows(), self.cols()),
                    bb == (FIX_BOUND as int) * (FIX_BOUND as int),
                    bbb == bb * (FIX_BOUND as int),
                    i < rn,
                    j <= rn,
                    row@.len() == j,
                    forall|j2: int|
                        0 <= j2 < j ==> #[trigger] row@[j2] as int == sp[i as int][j2],
                    forall|j2: int|
                        0 <= j2 < j ==> abs_i(#[trigger] row@[j2] as int) <= FIX_BOUND as int,
                decreases rn - j,
            {
                let ghost fo = |k: int|
                    self@[i as int][k] * sum(p as nat, |l: int| b@[k][l] * self@[j as int][l]);
                let mut acc: i128 = 0;
                let mut k: usize = 0;
                while k < p
                    invariant
                        self.wf(),
                        b.wf(),
                        b.rows() == b.cols(),
                        self.cols() == b.rows(),
                        rn == self.rows(),
                        p == self.cols(),
                        bb == (FIX_BOUND as int) * (FIX_BOUND as int),
                        bbb == bb * (FIX_BOUND as int),
                        i < rn,
                        j < rn,
                        k <= p,
                        fo == (|k2: int| self@[i as int][k2]
                            * sum(p as nat, |l: int| b@[k2][l] * self@[j as int][l])),
                        acc as int == sum(k as nat, fo),
                        abs_i(acc as int) <= k * (p * bbb),
                    decreases p - k,
                {
                    let ghost fi = |l: int| b@[k as int][l] * self@[j as int][l];
                    let mut inner: i128 = 0;
                    let mut l: usize = 0;
                    while l < p
                        invariant
                            self.wf(),
                            b.wf(),
                            b.rows() == b.cols(),
                            self.cols() == b.rows(),
                            rn == self.rows(),
                            p == self.cols(),
                            bb == (FIX_BOUND as int) * (FIX_BOUND as int),
                            i < rn,
                            j < rn,
                            k < p,
                            l <= p,
                            fi == (|l2: int| b@[k as int][l2] * self@[j as int][l2]),
                            inner as int == sum(l as nat, fi),
                            abs_i(inner as int) <= l * bb,
                        decreases p - l,
                    {
                        let x = b.get(k, l);
                        let y = self.get(j, l);
                        proof {
                            assert(abs_i((x as int) * (y as int)) <= bb) by (nonlinear_arith)
                                requires
                                    abs_i(x as int) <= FIX_BOUND as int,
                                    abs_i(y as int) <= FIX_BOUND as int,
                                    bb == (FIX_BOUND as int) * (FIX_BOUND as int);
                            assert((l + 1) * bb == l * bb + bb) by (nonlinear_arith);
                            assert(l * bb <= DIM_MAX as int * bb) by (nonlinear_arith)
                                requires 0 <= l <= DIM_MAX as int, bb >= 0;
                            assert(sum((l + 1) as nat, fi) == sum(l as nat, fi) + fi(l as int));
                        }
                        let t: i128 = (x as i128) * (y as i128);
                        inner = inner + t;
                        l += 1;
                    }
                    let a = self.get(i, k);
                    proof {
                        assert(abs_i(inner as int) <= p * bb);
                        assert(abs_i((a as int) * (inner as int)) <= p * bbb) by (nonlinear_arith)
                            requires
                                abs_i(a as int) <= FIX_BOUND as int,
                                abs_i(inner as int) <= p * bb,
                                p >= 0,
                                bb == (FIX_BOUND as int) * (FIX_BOUND as int),
                                bbb == bb * (FIX_BOUND as int);
                        assert(p * bbb <= DIM_MAX as int * bbb) by (nonlinear_arith)
                            requires 0 <= p <= DIM_MAX as int, bbb >= 0;
                        assert((k + 1) * (p * bbb) == k * (p * bbb) + p * bbb)
                            by (nonlinear_arith);
                        assert(k * (p * bbb) <= DIM_MAX as int * (DIM_MAX as int * bbb))
                            by (nonlinear_arith)
                            requires 0 <= k <= DIM_MAX as int, 0 <= p * bbb
                                <= DIM_MAX as int * bbb;
                        assert(sum((k + 1) as nat, fo) == sum(k as nat, fo) + fo(k as int));
                        assert(fo(k as int) == (a as int) * (inner as int));
                    }
                    let t: i128 = (a as i128) * inner;
                    acc = acc + t;
                    k += 1;
                }
                let s2: i128 = (FIX_ONE as i128) * (FIX_ONE as i128);
                proof {
                    assert(acc as int == qsum(self@, b@, i as int, j as int, p as int));
                    assert(bbb >= 0 && p * bbb <= DIM_MAX as int * bbb) by (nonlinear_arith)
                        requires
                            bb == (FIX_BOUND as int) * (FIX_BOUND as int),
                            bbb == bb * (FIX_BOUND as int),
                            0 <= p <= DIM_MAX as int;
                    assert(abs_i(acc as int) <= DIM_MAX as int * (DIM_MAX as int * bbb))
                        by (nonlinear_arith)
                        requires
                            abs_i(acc as int) <= k * (p * bbb),
                            k == p,
                            0 <= p <= DIM_MAX as int,
                            bbb >= 0,
                            p * bbb <= DIM_MAX as int * bbb;
                    assert(DIM_MAX as int * (DIM_MAX as int * bbb) < i128::MAX as int)
                        by (nonlinear_arith)
                        requires
                            bb == (FIX_BOUND as int) * (FIX_BOUND as int),
                            bbb == bb * (FIX_BOUND as int);
                    assert(s2 as int == (FIX_ONE as int) * (FIX_ONE as int));
                    assert(s2 != 0);
                }
                let e = div_i128(acc, s2);
                proof {
                    assert(s2 as int == (FIX_ONE as int) * (FIX_ONE as int));
                    assert(e as int == qform_entry(self@, b@, i as int, j as int, p as int));
                    assert(sp[i as int][j as int]
                        == qform_entry(self@, b@, i as int, j as int, p as int));
                }
                if e < -(FIX_BOUND as i128) || e > FIX_BOUND as i128 {
                    proof {
                        assert(abs_i(sp[i as int][j as int]) > FIX_BOUND as int);
                    }
                    return None;
                }
                row.push(e as i64);
                j += 1;
            }
            d.push(row);
            i += 1;
        }
        let m = Matrix { d };
        proof {
            assert forall|i2: int| 0 <= i2 < m@.len() implies #[trigger] m@[i2] =~= sp[i2] by {
            }
            assert(m@ =~~= sp);
            assert(grid_in_range(sp));
        }
        Some(m)
    }

    /// The trace of a square matrix; it always fits in a scalar's carrier
    /// type because the dimension is small.
    pub fn trace(&self) -> (t: i64)
        requires
            self.wf(),
            self.rows() == self.cols(),
        ensures
            t as int == trace_spec(self@, self.rows()),
    {
        let n = self.nrows();
        let ghost f = |k: int| self@[k][k];
        let mut acc: i64 = 0;
        let mut k: usize = 0;
        while k < n
            invariant
                self.wf(),
                self.rows() == self.cols(),
                n == self.rows(),
                k <= n,
                f == (|k2: int| self@[k2][k2]),
                acc as int == sum(k as nat, f),
                abs_i(acc as int) <= k * (FIX_BOUND as int),
            decreases n - k,
        {
            let x = self.get(k, k);
            proof {
                assert((k + 1) * (FIX_BOUND as int) == k * (FIX_BOUND as int) + FIX_BOUND as int)
                    by (nonlinear_arith);
                assert(k * (FIX_BOUND as int) <= DIM_MAX as int * (FIX_BOUND as int))
                    by (nonlinear_arith)
                    requires 0 <= k <= DIM_MAX as int;
                assert(sum((k + 1) as nat, f) == sum(k as nat, f) + f(k as int));
            }
            acc = acc + x;
            k += 1;
        }
        acc
    }

    /// An entrywise copy of the matrix.
    pub fn duplicate(&self) -> (m: Matrix)
        requires
            self.wf(),
        ensures
            m.wf(),
            m@ == self@,
    {
        let rn = self.nrows();
        let cn = self.ncols();
        let mut d: Vec<Vec<i64>> = Vec::new();
        let mut i: usize = 0;
        while i < rn
            invariant
                self.wf(),
                rn == self.rows(),
                cn == self.cols(),
                i <= rn,
                d@.len() == i,
                forall|i2: int| 0 <= i2 < i ==> (#[trigger] d@[i2])@.len() == cn,
                forall|i2: int, j2: int|
                    0 <= i2 < i && 0 <= j2 < cn
                        ==> #[trigger] d@[i2]@[j2] as int == self@[i2][j2],
            decreases rn - i,
        {
            let mut row: Vec<i64> = Vec::new();
            let mut j: usize = 0;
            while j < cn
                invariant
                    self.wf(),
                    rn == self.rows(),
                    cn == self.cols(),
                    i < rn,
                    j <= cn,
                    row@.len() == j,
                    forall|j2: int|
                        0 <= j2 < j ==> #[trigger] row@[j2] as int == self@[i as int][j2],
                decreases cn - j,
            {
                row.push(self.get(i, j));
                j += 1;
            }
            d.push(row);
            i += 1;
        }
        let m = Matrix { d };
        proof {
            assert forall|i2: int| 0 <= i2 < m@.len() implies #[trigger] m@[i2] =~= self@[i2]
            by {
            }
            assert(m@ =~~= self@);
        }
        m
    }

    /// The square submatrix with row `r` and column `c` removed.
    pub fn minor(&self, r: usize, c: usize) -> (m: Matrix)
        requires
            self.wf(),
            self.rows() == self.cols(),
            self.rows() >= 2,
            r < self.rows(),
            c < self.cols(),
        ensures
            m.wf(),
            m.rows() == self.rows() - 1,
            m.cols() == self.rows() - 1,
            m@ == minor_spec(self@, r as int, c as int, self.rows()),
    {
        let n = self.nrows();
        let ghost sp = minor_spec(self@, r as int, c as int, self.rows());
        let mut d: Vec<Vec<i64>> = Vec::new();
        let mut i: usize = 0;
        while i < n - 1
            invariant
                self.wf(),
                self.rows() == self.cols(),
                n == self.rows(),
                n >= 2,
                r < n,
                c < n,
                sp == minor_spec(self@, r as int, c as int, self.rows()),
                i <= n - 1,
                d@.len() == i,
                forall|i2: int| 0 <= i2 < i ==> (#[trigger] d@[i2])@.len() == n - 1,
                forall|i2: int, j2: int|
                    0 <= i2 < i && 0 <= j2 < n - 1
                        ==> #[trigger] d@[i2]@[j2] as int == sp[i2][j2],
            decreases n - 1 - i,
        {
            let si = if i < r {
                i
            } else {
                i + 1
            };
            let mut row: Vec<i64> = Vec::new();
            let mut j: usize = 0;
            while j < n - 1
                invariant
                    self.wf(),
                    self.rows() == self.cols(),
                    n == self.rows(),
                    n >= 2,
                    r < n,
                    c < n,
                    sp == minor_spec(self@, r as int, c as int, self.rows()),
                    i < n - 1,
                    si == if i < r { i as int } else { i + 1 },
                    j <= n - 1,
                    row@.len() == j,
                    forall|j2: int|
                        0 <= j2 < j ==> #[trigger] row@[j2] as int == sp[i as int][j2],
                decreases n - 1 - j,
            {
                let sj = if j < c {
                    j
                } else {
                    j + 1
                };
                row.push(self.get(si, sj));
                j += 1;
            }
            d.push(row);
            i += 1;
        }
        let m = Matrix { d };
        proof {
            assert forall|i2: int| 0 <= i2 < m@.len() implies #[trigger] m@[i2] =~= sp[i2] by {
            }
            assert(m@ =~~= sp);
            assert forall|i2: int, j2: int|
                0 <= i2 < m@.len() && 0 <= j2 < m@[i2].len()
                implies abs_i(#[trigger] m@[i2][j2]) <= FIX_BOUND as int by {
                let a = if i2 < r { i2 } else { i2 + 1 };
                let b = if j2 < c { j2 } else { j2 + 1 };
                assert(m@[i2][j2] == self@[a][b]);
            }
        }
        m
    }

    /// The determinant, exactly, by cofactor expansion; it carries `n`
    /// fixed-point scale factors for an `n` by `n` matrix.
    pub fn det_scaled(&self) -> (d: i128)
        requires
            self.wf(),
            self.rows() == self.cols(),
            self.rows() <= INV_DIM_MAX,
        ensures
            d as int == det_spec(self@, self@.len() as nat),
            abs_i(d as int) <= det_abs_bound(self@.len() as nat),
        decreases self@.len(),
    {
        let n = self.nrows();
        let ghost gn = self@.len() as nat;
        if n == 1 {
            let x = self.get(0, 0);
            proof {
                lemma_dab_unfold(1);
            }
            return x as i128;
        }
        let ghost dabm = det_abs_bound((gn - 1) as nat);
        let ghost step = (FIX_BOUND as int) * dabm;
        let mut acc: i128 = 0;
        let mut j: usize = 0;
        proof {
            lemma_dab_unfold(gn);
            lemma_dab_cap(gn);
            lemma_dab_cap((gn - 1) as nat);
            assert(gn * ((FIX_BOUND as int) * dabm) == gn * (FIX_BOUND as int) * dabm)
                by (nonlinear_arith);
        }
        while j < n
            invariant
                self.wf(),
                self.rows() == self.cols(),
                n == self.rows(),
                2 <= n <= INV_DIM_MAX,
                gn == self@.len() as nat,
                dabm == det_abs_bound((gn - 1) as nat),
                step == (FIX_BOUND as int) * dabm,
                1 <= dabm < i128::MAX as int,
                det_abs_bound(gn) == gn * step,
                det_abs_bound(gn) < i128::MAX as int,
                j <= n,
                acc as int + laplace(self@, gn, j as nat) == laplace(self@, gn, 0),
                abs_i(acc as int) <= j * step,
            decreases n - j,
        {
            let sub = self.minor(0, j);
            let sd = sub.det_scaled();
            let a = self.get(0, j);
            proof {
                assert(abs_i((a as int) * (sd as int)) <= step) by (nonlinear_arith)
                    requires
                        abs_i(a as int) <= FIX_BOUND as int,
                        abs_i(sd as int) <= dabm,
                        dabm >= 0,
                        step == (FIX_BOUND as int) * dabm;
                assert((j + 1) * step == j * step + step) by (nonlinear_arith);
                assert(j * step <= gn * step && (j + 1) * step <= gn * step)
                    by (nonlinear_arith)
                    requires 0 <= j, j + 1 <= gn, step >= 0;
                assert(laplace(self@, gn, j as nat) == sign_of(j as int) * self@[0][j as int]
                    * det_spec(minor_spec(self@, 0, j as int, gn as int), (gn - 1) as nat)
                    + laplace(self@, gn, (j + 1) as nat));
            }
            let t: i128 = (a as i128) * sd;
            let term: i128 = if j % 2 == 0 {
                t
            } else {
                -t
            };
            proof {
                assert(term as int == sign_of(j as int) * ((a as int) * (sd as int)))
                    by (nonlinear_arith)
                    requires
                        term as int == if j % 2 == 0 { (a as int) * (sd as int) } else {
                            -((a as int) * (sd as int))
                        },
                        sign_of(j as int) == if j % 2 == 0 { 1int } else { -1int },
                ;
                assert(sign_of(j as int) * ((a as int) * (sd as int)) == sign_of(j as int)
                    * (a as int) * (sd as int)) by (nonlinear_arith);
                assert(self@[0][j as int] == a as int);
            }
            acc = acc + term;
            j += 1;
        }
        proof {
            assert(laplace(self@, gn, gn) == 0);
            assert(det_spec(self@, gn) == laplace(self@, gn, 0));
        }
        acc
    }

    /// The fixed-point inverse, by Cramer's rule: entry `(i, j)` is the
    /// cofactor of `(j, i)` rescaled by the fixed-point unit squared and
    /// divided by the exact determinant.  `None` exactly when the
    /// determinant is zero or some entry of the inverse would leave the
    /// scalar range.
    pub fn invert(&self) -> (r: Option<Matrix>)
        requires
            self.wf(),
            self.rows() == self.cols(),
            self.rows() <= INV_DIM_MAX,
        ensures
            match r {
                Some(m) => {
                    &&& det_spec(self@, self@.len() as nat) != 0
                    &&& m.wf()
                    &&& m.rows() == self.rows()
                    &&& m.cols() == self.rows()
                    &&& m@ == inv_spec(self@, self.rows())
                    &&& grid_in_range(inv_spec(self@, self.rows()))
                },
                None => det_spec(self@, self@.len() as nat) == 0
                    || !grid_in_range(inv_spec(self@, self.rows())),
            },
    {
        let n = self.nrows();
        let ghost gn = self@.len() as nat;
        let det = self.det_scaled();
        if det == 0 {
            return None;
        }
        let s2: i128 = (FIX_ONE as i128) * (FIX_ONE as i128);
        let ghost sp = inv_spec(self@, self.rows());
        proof {
            lemma_dab_cap(gn);
            lemma_dab_cap((gn - 1) as nat);
            assert(s2 as int == (FIX_ONE as int) * (FIX_ONE as int));
            assert(s2 == 0x100000000) by (nonlinear_arith)
                requires s2 as int == (FIX_ONE as int) * (FIX_ONE as int),
                    FIX_ONE as int == 0x10000;
        }
        let mut d: Vec<Vec<i64>> = Vec::new();
        let mut i: usize = 0;
        while i < n
            invariant
                self.wf(),
                self.rows() == self.cols(),
                n == self.rows(),
                1 <= n <= INV_DIM_MAX,
                gn == self@.len() as nat,
                det as int == det_spec(self@, gn),
                det != 0,
                abs_i(det as int) < i128::MAX as int,
                s2 as int == (FIX_ONE as int) * (FIX_ONE as int),
                s2 == 0x100000000,
                det_abs_bound((gn - 1) as nat) * (s2 as int) < i128::MAX as int,
                det_abs_bound((gn - 1) as nat) >= 1,
                sp == inv_spec(self@, self.rows()),
                i <= n,
                d@.len() == i,
                forall|i2: int| 0 <= i2 < i ==> (#[trigger] d@[i2])@.len() == n,
                forall|i2: int, j2: int|
                    0 <= i2 < i && 0 <= j2 < n
                        ==> #[trigger] d@[i2]@[j2] as int == sp[i2][j2],
                forall|i2: int, j2: int|
                    0 <= i2 < i && 0 <= j2 < n
                        ==> abs_i(#[trigger] d@[i2]@[j2] as int) <= FIX_BOUND as int,
            decreases n - i,
        {
            let mut row: Vec<i64> = Vec::new();
            let mut j: usize = 0;
            while j < n
                invariant
                    self.wf(),
                    self.rows() == self.cols(),
                    n == self.rows(),
                    1 <= n <= INV_DIM_MAX,
                    gn == self@.len() as nat,
                    det as int == det_spec(self@, gn),
                    det != 0,
                    abs_i(det as int) < i128::MAX as int,
                    s2 as int == (FIX_ONE as int) * (FIX_ONE as int),
                    s2 == 0x100000000,
                    det_abs_bound((gn - 1) as nat) * (s2 as int) < i128::MAX as int,
                    det_abs_bound((gn - 1) as nat) >= 1,
                    sp == inv_spec(self@, self.rows()),
                    i < n,
                    j <= n,
                    row@.len() == j,
                    forall|j2: int|
                        0 <= j2 < j ==> #[trigger] row@[j2] as int == sp[i as int][j2],
                    forall|j2: int|
                        0 <= j2 < j ==> abs_i(#[trigger] row@[j2] as int) <= FIX_BOUND as int,
                decreases n - j,
            {
                let ghost dabm = det_abs_bound((gn - 1) as nat);
                let cof: i128 = if n == 1 {
                    proof {
                        assert(minor_spec(self@, 0, 0, 1).len() == 0);
                        assert(det_spec(minor_spec(self@, 0, 0, 1), 0) == 1);
                        assert(sign_of(0) == 1);
                        assert(cof_spec(self@, 1, 0, 0) == 1);
                        assert(det_abs_bound(0) == 1);
                    }
                    1
                } else {
                    let sub = self.minor(j, i);
                    let sd = sub.det_scaled();
                    let signed: i128 = if (i + j) % 2 == 0 {
                        sd
                    } else {
                        -sd
                    };
                    proof {
                        assert(((i + j) as int) % 2 == ((i as int) + (j as int)) % 2);
                        assert(signed as int == sign_of(i as int + j as int) * (sd as int))
                            by (nonlinear_arith)
                            requires
                                signed as int == if ((i as int) + (j as int)) % 2 == 0 {
                                    sd as int
                                } else {
                                    -(sd as int)
                                },
                                sign_of(i as int + j as int)
                                    == if ((i as int) + (j as int)) % 2 == 0 { 1int } else {
                                    -1int
                                },
                        ;
                        assert(signed as int == cof_spec(self@, n as int, j as int, i as int));
                        assert(abs_i(signed as int) <= dabm);
                    }
                    signed
                };
                proof {
                    assert(abs_i(cof as int) <= dabm);
                    assert(abs_i((cof as int) * (s2 as int)) <= dabm * (s2 as int))
                        by (nonlinear_arith)
                        requires
                            abs_i(cof as int) <= dabm,
                            s2 as int > 0,
                    ;
                }
                let num: i128 = cof * s2;
                let e = div_i128(num, det);
                proof {
                    assert(num as int == cof_spec(self@, n as int, j as int, i as int)
                        * ((FIX_ONE as int) * (FIX_ONE as int)));
                    assert(e as int == inv_entry(self@, n as int, i as int, j as int));
                    assert(sp[i as int][j as int]
                        == inv_entry(self@, n as int, i as int, j as int));
                }
                if e < -(FIX_BOUND as i128) || e > FIX_BOUND as i128 {
                    proof {
                        assert(abs_i(sp[i as int][j as int]) > FIX_BOUND as int);
                    }
                    return None;
                }
                row.push(e as i64);
                j += 1;
            }
            d.push(row);
            i += 1;
        }
        let m = Matrix { d };
        proof {
            assert forall|i2: int| 0 <= i2 < m@.len() implies #[trigger] m@[i2] =~= sp[i2] by {
            }
            assert(m@ =~~= sp);
            assert(grid_in_range(sp));
        }
        Some(m)
    }
}

} // verus!
