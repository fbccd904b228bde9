//! Geometric and kinematic value types.
//!
//! Coordinates, velocities and distances are fixed-point scalars; the
//! trigonometric conversions between geodetic and local frames are
//! mechanical formulas owned by the platform layer, which hands the core
//! plain values (including sines and cosines already evaluated).

use crate::fixed::{abs_i, div_i128, fmul, fmul_s, tdiv, FIX_BOUND, FIX_ONE};
use crate::matrix::Matrix;
use vstd::prelude::*;

verus! {

/// A geographic coordinate: longitude and latitude, in fixed-point
/// degrees.
#[derive(Debug, PartialEq, Eq, Structural, Copy, Clone)]
pub struct GeoCoord {
    pub lon: i64,
    pub lat: i64,
}

impl GeoCoord {
    pub fn new(longitude: i64, latitude: i64) -> (c: GeoCoord)
        ensures
            c.lon == longitude,
            c.lat == latitude,
    {
        GeoCoord { lon: longitude, lat: latitude }
    }

    /// Extracts a coordinate from the optional longitude and latitude of
    /// a decoded GGA sentence: present exactly when both are.
    pub fn from_gga(longitude: Option<i64>, latitude: Option<i64>) -> (r: Option<GeoCoord>)
        ensures
            match r {
                Some(c) => longitude == Some(c.lon) && latitude == Some(c.lat),
                None => longitude is None || latitude is None,
            },
    {
        match (longitude, latitude) {
            (Some(lon), Some(lat)) => Some(GeoCoord { lon, lat }),
            _ => None,
        }
    }
}

/// A point in a local two-dimensional Cartesian frame.
#[derive(Debug, PartialEq, Eq, Structural, Copy, Clone)]
pub struct Cartesian2D {
    pub x: i64,
    pub y: i64,
}

impl Cartesian2D {
    pub fn new(x: i64, y: i64) -> (c: Cartesian2D)
        ensures
            c.x == x,
            c.y == y,
    {
        Cartesian2D { x, y }
    }

    /// The point as a two-entry measurement vector, when it fits the
    /// scalar range the filter works in.
    pub fn to_vector(&self) -> (r: Option<Matrix>)
        ensures
            match r {
                Some(m) => {
                    &&& m.wf()
                    &&& m.rows() == 2
                    &&& m.cols() == 1
                    &&& m@[0][0] == self.x as int
                    &&& m@[1][0] == self.y as int
                },
                None => abs_i(self.x as int) > FIX_BOUND as int || abs_i(self.y as int)
                    > FIX_BOUND as int,
            },
    {
        let mut v: Vec<i64> = Vec::new();
        v.push(self.x);
        v.push(self.y);
        Matrix::column(v)
    }
}

/// A point in a three-dimensional Cartesian frame.
#[derive(Debug, PartialEq, Eq, Structural, Copy, Clone)]
pub struct Cartesian3D {
    pub x: i64,
    pub y: i64,
    pub z: i64,
}

impl Cartesian3D {
    pub fn new(x: i64, y: i64, z: i64) -> (c: Cartesian3D)
        ensures
            c.x == x,
            c.y == y,
            c.z == z,
    {
        Cartesian3D { x, y, z }
    }

    /// Drops the height component.
    pub fn to_2d(&self) -> (c: Cartesian2D)
        ensures
            c.x == self.x,
            c.y == self.y,
    {
        Cartesian2D { x: self.x, y: self.y }
    }
}

/// A planar velocity.
#[derive(Debug, PartialEq, Eq, Structural, Copy, Clone)]
pub struct Velocity2D {
    pub vx: i64,
    pub vy: i64,
}

impl Velocity2D {
    pub fn new(vx: i64, vy: i64) -> (v: Velocity2D)
        ensures
            v.vx == vx,
            v.vy == vy,
    {
        Velocity2D { vx, vy }
    }
}

/// A position paired with a velocity: the full observable state of the
/// robot.
#[derive(Debug, PartialEq, Eq, Structural, Copy, Clone)]
pub struct KinematicState {
    pub position: Cartesian2D,
    pub velocity: Velocity2D,
}

impl KinematicState {
    pub fn new(position: Cartesian2D, velocity: Velocity2D) -> (k: KinematicState)
        ensures
            k.position == position,
            k.velocity == velocity,
    {
        KinematicState { position, velocity }
    }

    /// The state as a four-entry measurement vector `(x, y, vx, vy)`,
    /// when it fits the scalar range the filter works in.
    pub fn to_vector(&self) -> (r: Option<Matrix>)
        ensures
            match r {
                Some(m) => {
                    &&& m.wf()
                    &&& m.rows() == 4
                    &&& m.cols() == 1
                    &&& m@[0][0] == self.position.x as int
                    &&& m@[1][0] == self.position.y as int
                    &&& m@[2][0] == self.velocity.vx as int
                    &&& m@[3][0] == self.velocity.vy as int
                },
                None => abs_i(self.position.x as int) > FIX_BOUND as int || abs_i(
                    self.position.y as int) > FIX_BOUND as int || abs_i(self.velocity.vx as int)
                    > FIX_BOUND as int || abs_i(self.velocity.vy as int) > FIX_BOUND as int,
            },
    {
        let mut v: Vec<i64> = Vec::new();
        v.push(self.position.x);
        v.push(self.position.y);
        v.push(self.velocity.vx);
        v.push(self.velocity.vy);
        Matrix::column(v)
    }
}

/// The Earth-centred conversion from geodetic coordinates; its
/// trigonometric formula is evaluated by the platform layer, which owns
/// every conversion in and out of the geodetic frame.
pub struct GeoToECEF;

impl GeoToECEF {
    pub fn new() -> GeoToECEF {
        GeoToECEF {  }
    }
}

// ---------------------------------------------------------------------------
// Oriented velocity from a compass and an optical-flow sensor.
// ---------------------------------------------------------------------------

/// A heading, in fixed-point radians.
#[derive(Debug, PartialEq, Eq, Structural, Copy, Clone)]
pub struct Orientation {
    pub radian: i64,
}

impl Orientation {
    pub fn new(radian: i64) -> (o: Orientation)
        ensures
            o.radian == radian,
    {
        Orientation { radian }
    }
}

/// A distance travelled since the last read, in fixed-point millimetres
/// per axis of the sensor's local frame.
#[derive(Debug, PartialEq, Eq, Structural, Copy, Clone)]
pub struct DistanceMM {
    pub dx: i64,
    pub dy: i64,
}

impl DistanceMM {
    pub fn new(dx: i64, dy: i64) -> (d: DistanceMM)
        ensures
            d.dx == dx,
            d.dy == dy,
    {
        DistanceMM { dx, dy }
    }
}

/// The unsigned big-endian value of two bytes.
pub open spec fn be_u16(hi: u8, lo: u8) -> int {
    hi as int * 256 + lo as int
}

/// The signed two's-complement value of two big-endian bytes.
pub open spec fn be_i16(hi: u8, lo: u8) -> int {
    if be_u16(hi, lo) >= 0x8000 {
        be_u16(hi, lo) - 0x10000
    } else {
        be_u16(hi, lo)
    }
}

/// One raw motion readout of the optical-flow sensor, decoded from its
/// thirteen-byte burst.
#[derive(Debug, PartialEq, Eq, Structural, Copy, Clone)]
pub struct MotionBurst {
    pub delta_x: i16,
    pub delta_y: i16,
    pub squal: u8,
    pub raw_sum: u8,
    pub raw_max: u8,
    pub raw_min: u8,
    pub shutter: u16,
}

impl MotionBurst {
    /// Decodes the raw register burst: the motion deltas sit at bytes
    /// three to six with their low byte first, the quality measures
    /// follow, and the shutter value closes the burst low byte first.
    pub fn from_bytes(value: &[u8; 13]) -> (m: MotionBurst)
        ensures
            m.delta_x as int == be_i16(value@[4], value@[3]),
            m.delta_y as int == be_i16(value@[6], value@[5]),
            m.squal == value@[7],
            m.raw_sum == value@[8],
            m.raw_max == value@[9],
            m.raw_min == value@[10],
            m.shutter as int == be_u16(value@[12], value@[11]),
    {
        let dx_u: u32 = (value[4] as u32) * 256 + (value[3] as u32);
        let dx_s: i32 = if dx_u >= 0x8000 {
            dx_u as i32 - 0x10000
        } else {
            dx_u as i32
        };
        let dy_u: u32 = (value[6] as u32) * 256 + (value[5] as u32);
        let dy_s: i32 = if dy_u >= 0x8000 {
            dy_u as i32 - 0x10000
        } else {
            dy_u as i32
        };
        let shutter: u16 = (value[12] as u16) * 256 + (value[11] as u16);
        MotionBurst {
            delta_x: dx_s as i16,
            delta_y: dy_s as i16,
            squal: value[7],
            raw_sum: value[8],
            raw_max: value[9],
            raw_min: value[10],
            shutter,
        }
    }
}

/// A velocity in the global frame, in fixed-point metres per second.
#[derive(Debug, PartialEq, Eq, Structural, Copy, Clone)]
pub struct Velocity {
    pub vx: i64,
    pub vy: i64,
}

/// The integer square root: the largest `r` with `r * r <= x`.
fn isqrt(x: u64) -> (r: u64)
    requires
        x < 0x4000000000000000,
    ensures
        r * r <= x,
        x < (r + 1) * (r + 1),
{
    let mut lo: u64 = 0;
    let mut hi: u64 = 0x80000000;
    proof {
        assert((0x80000000 as int) * (0x80000000 as int) == 0x4000000000000000)
            by (nonlinear_arith);
    }
    while hi - lo > 1
        invariant
            lo < hi <= 0x80000000,
            lo * lo <= x,
            x < hi * hi,
        decreases hi - lo,
    {
        let mid = lo + (hi - lo) / 2;
        proof {
            assert(lo < mid < hi);
            assert(mid * mid <= 0x80000000 * 0x80000000) by (nonlinear_arith)
                requires 0 <= mid <= 0x80000000;
        }
        if mid * mid <= x {
            lo = mid;
        } else {
            hi = mid;
        }
    }
    lo
}

impl Velocity {
    pub fn new(vx: i64, vy: i64) -> (v: Velocity)
        ensures
            v.vx == vx,
            v.vy == vy,
    {
        Velocity { vx, vy }
    }

    /// The speed: the integer square root of the sum of squares, which in
    /// fixed point is again a fixed-point magnitude.
    pub fn value(&self) -> (r: i64)
        requires
            abs_i(self.vx as int) <= FIX_BOUND as int,
            abs_i(self.vy as int) <= FIX_BOUND as int,
        ensures
            r >= 0,
            (r as int) * (r as int) <= (self.vx as int) * (self.vx as int) + (self.vy as int)
                * (self.vy as int),
            (self.vx as int) * (self.vx as int) + (self.vy as int) * (self.vy as int) < (r + 1)
                * (r + 1),
    {
        proof {
            assert((self.vx as int) * (self.vx as int) + (self.vy as int) * (self.vy as int)
                < 0x4000000000000000 && (self.vx as int) * (self.vx as int) >= 0
                && (self.vy as int) * (self.vy as int) >= 0) by (nonlinear_arith)
                requires
                    abs_i(self.vx as int) <= FIX_BOUND as int,
                    abs_i(self.vy as int) <= FIX_BOUND as int,
                    FIX_BOUND as int == 0x40000000;
        }
        let sq: u64 = ((self.vx as i128) * (self.vx as i128) + (self.vy as i128) * (self.vy
            as i128)) as u64;
        let r = isqrt(sq);
        proof {
            assert(r < 0x80000000) by (nonlinear_arith)
                requires
                    (r as int) * (r as int) <= sq as int,
                    (sq as int) < 0x4000000000000000,
            ;
        }
        r as i64
    }
}

/// The local-frame velocity of one optical-flow axis: millimetres over
/// elapsed milliseconds come out as fixed-point metres per second.
pub open spec fn axis_velocity(d_mm: int, dt_ms: int) -> int {
    tdiv(d_mm, dt_ms)
}

/// The global-frame x velocity: the local velocity rotated by the
/// heading.
pub open spec fn rotated_vx(vlx: int, vly: int, sin_r: int, cos_r: int) -> int {
    fmul_s(vlx, cos_r) + fmul_s(vly, sin_r)
}

/// The global-frame y velocity.
pub open spec fn rotated_vy(vlx: int, vly: int, sin_r: int, cos_r: int) -> int {
    fmul_s(vly, cos_r) - fmul_s(vlx, sin_r)
}

/// A velocity source that fuses a heading sensor with an optical-flow
/// sensor.  Pulling the two devices and evaluating the heading's sine and
/// cosine happen in the platform layer; the fusion arithmetic is here.
pub struct OrientedVelocity<O, F> {
    pub last_time_ms: u64,
    pub orientation_sensor: O,
    pub distance_traveled_sensor: F,
}

impl<O, F> OrientedVelocity<O, F> {
    pub fn new(orientation_sensor: O, distance_traveled_sensor: F, now_ms: u64) -> (r:
        OrientedVelocity<O, F>)
        ensures
            r.last_time_ms == now_ms,
            r.orientation_sensor == orientation_sensor,
            r.distance_traveled_sensor == distance_traveled_sensor,
    {
        OrientedVelocity { last_time_ms: now_ms, orientation_sensor, distance_traveled_sensor }
    }

    /// One fused reading: the distance since the last read, over the
    /// elapsed time, rotated from the sensor's local frame into the
    /// global frame by the heading whose sine and cosine are given.
    pub fn step(&mut self, distance: DistanceMM, sin_r: i64, cos_r: i64, now_ms: u64) -> (v:
        Velocity)
        requires
            now_ms > old(self).last_time_ms,
            now_ms - old(self).last_time_ms <= 0x7fffffffffffffff,
            abs_i(distance.dx as int) <= FIX_BOUND as int,
            abs_i(distance.dy as int) <= FIX_BOUND as int,
            abs_i(sin_r as int) <= FIX_ONE as int,
            abs_i(cos_r as int) <= FIX_ONE as int,
        ensures
            final(self).last_time_ms == now_ms,
            final(self).orientation_sensor == old(self).orientation_sensor,
            final(self).distance_traveled_sensor == old(self).distance_traveled_sensor,
            ({
                let dt = (now_ms - old(self).last_time_ms) as int;
                let vlx = axis_velocity(distance.dx as int, dt);
                let vly = axis_velocity(distance.dy as int, dt);
                v.vx as int == rotated_vx(vlx, vly, sin_r as int, cos_r as int) && v.vy as int
                    == rotated_vy(vlx, vly, sin_r as int, cos_r as int)
            }),
    {
        let dt_ms = now_ms - self.last_time_ms;
        self.last_time_ms = now_ms;
        let vlx = div_i128(distance.dx as i128, dt_ms as i128) as i64;
        let vly = div_i128(distance.dy as i128, dt_ms as i128) as i64;
        proof {
            crate::fixed::lemma_tdiv_bound(distance.dx as int, dt_ms as int, FIX_BOUND as int);
            crate::fixed::lemma_tdiv_bound(distance.dy as int, dt_ms as int, FIX_BOUND as int);
        }
        let xc = fmul(vlx, cos_r);
        let ys = fmul(vly, sin_r);
        let yc = fmul(vly, cos_r);
        let xs = fmul(vlx, sin_r);
        proof {
            lemma_rot_bounds(vlx as int, cos_r as int, xc as int);
            lemma_rot_bounds(vly as int, sin_r as int, ys as int);
            lemma_rot_bounds(vly as int, cos_r as int, yc as int);
            lemma_rot_bounds(vlx as int, sin_r as int, xs as int);
        }
        Velocity { vx: xc + ys, vy: yc - xs }
    }
}

/// A rescaled product of a bounded velocity with a unit-bounded factor
/// keeps the velocity's bound.
proof fn lemma_rot_bounds(v: int, u: int, r: int)
    requires
        abs_i(v) <= FIX_BOUND as int,
        abs_i(u) <= FIX_ONE as int,
        r == fmul_s(v, u),
    ensures
        abs_i(r) <= FIX_BOUND as int,
{
    assert(abs_i(v * u) <= (FIX_BOUND as int) * (FIX_ONE as int)) by (nonlinear_arith)
        requires abs_i(v) <= FIX_BOUND as int, abs_i(u) <= FIX_ONE as int;
    crate::fixed::lemma_tdiv_bound(v * u, FIX_ONE as int, (FIX_BOUND as int) * (FIX_ONE as int));
    assert((FIX_BOUND as int) * (FIX_ONE as int) / (FIX_ONE as int) == FIX_BOUND as int)
        by (nonlinear_arith)
        requires FIX_BOUND as int == 0x40000000, FIX_ONE as int == 0x10000;
}

// ---------------------------------------------------------------------------
// Plain position tracks.
// ---------------------------------------------------------------------------

/// A bare sequence of positions.
pub type Cartesian2DTrack = Vec<Cartesian2D>;

/// The bottom-left corner of the rectangle spanned by the track: the
/// minimum of the x coordinates paired with the minimum of the y
/// coordinates.  `None` exactly when the track is empty.
pub fn min_point_track(track: &Cartesian2DTrack) -> (r: Option<Cartesian2D>)
    ensures
        match r {
            Some(p) => {
                &&& track@.len() > 0
                &&& forall|i: int|
                    0 <= i < track@.len() ==> p.x <= (#[trigger] track@[i]).x && p.y
                        <= track@[i].y
                &&& exists|i: int| 0 <= i < track@.len() && (#[trigger] track@[i]).x == p.x
                &&& exists|i: int| 0 <= i < track@.len() && (#[trigger] track@[i]).y == p.y
            },
            None => track@.len() == 0,
        },
{
    if track.len() == 0 {
        return None;
    }
    let mut best = track[0];
    let mut k: usize = 1;
    while k < track.len()
        invariant
            track@.len() > 0,
            1 <= k <= track@.len(),
            forall|i: int|
                0 <= i < k ==> best.x <= (#[trigger] track@[i]).x && best.y <= track@[i].y,
            exists|i: int| 0 <= i < k && (#[trigger] track@[i]).x == best.x,
            exists|i: int| 0 <= i < k && (#[trigger] track@[i]).y == best.y,
        decreases track@.len() - k,
    {
        let p = track[k];
        if p.x < best.x {
            best.x = p.x;
        }
        if p.y < best.y {
            best.y = p.y;
        }
        k += 1;
    }
    Some(best)
}

/// The top-right corner of the rectangle spanned by the track.  `None`
/// exactly when the track is empty.
pub fn max_point_track(track: &Cartesian2DTrack) -> (r: Option<Cartesian2D>)
    ensures
        match r {
            Some(p) => {
                &&& track@.len() > 0
                &&& forall|i: int|
                    0 <= i < track@.len() ==> p.x >= (#[trigger] track@[i]).x && p.y
                        >= track@[i].y
                &&& exists|i: int| 0 <= i < track@.len() && (#[trigger] track@[i]).x == p.x
                &&& exists|i: int| 0 <= i < track@.len() && (#[trigger] track@[i]).y == p.y
            },
            None => track@.len() == 0,
        },
{
    if track.len() == 0 {
        return None;
    }
    let mut best = track[0];
    let mut k: usize = 1;
    while k < track.len()
        invariant
            track@.len() > 0,
            1 <= k <= track@.len(),
            forall|i: int|
                0 <= i < k ==> best.x >= (#[trigger] track@[i]).x && best.y >= track@[i].y,
            exists|i: int| 0 <= i < k && (#[trigger] track@[i]).x == best.x,
            exists|i: int| 0 <= i < k && (#[trigger] track@[i]).y == best.y,
        decreases track@.len() - k,
    {
        let p = track[k];
        if p.x > best.x {
            best.x = p.x;
        }
        if p.y > best.y {
            best.y = p.y;
        }
        k += 1;
    }
    Some(best)
}

} // verus!
