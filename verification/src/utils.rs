//! Frame timing and small helpers around the control loop.

use crate::geo::GeoCoord;
use crate::logic::Sensor;
use vstd::prelude::*;

verus! {

/// Times far below this stay safely clear of overflow in any frame
/// computation.
pub const MS_TIME_MAX: u64 = 0x4000000000000000;

/// What one frame of the game loop decides: the frame number, how long to
/// sleep before doing the frame's work, and by how much the loop is
/// lagging behind its schedule.
pub struct FrameStep {
    pub frame: u64,
    pub wait_ms: u64,
    pub lag_ms: u64,
}

/// The pacing state of a fixed-rate loop: each frame either waits until
/// its scheduled start or records how far behind it is; work is never
/// skipped.
pub struct GameLoop {
    pub frame: u64,
    pub current_frame_start_ms: u64,
    pub duration_per_frame_ms: u64,
}

impl GameLoop {
    /// Pacing state within safe time bounds.
    pub open spec fn wf(&self) -> bool {
        &&& self.current_frame_start_ms <= MS_TIME_MAX
        &&& 1 <= self.duration_per_frame_ms <= 1000
    }

    pub fn new(duration_per_frame_ms: u64, now_ms: u64) -> (g: GameLoop)
        requires
            1 <= duration_per_frame_ms <= 1000,
            now_ms <= MS_TIME_MAX,
        ensures
            g.wf(),
            g.frame == 0,
            g.current_frame_start_ms == now_ms,
            g.duration_per_frame_ms == duration_per_frame_ms,
    {
        GameLoop { frame: 0, current_frame_start_ms: now_ms, duration_per_frame_ms }
    }

    /// A loop running at the given number of frames per second; the frame
    /// length is the whole number of milliseconds in one frame.
    pub fn from_fps(fps: usize, now_ms: u64) -> (g: GameLoop)
        requires
            1 <= fps <= 1000,
            now_ms <= MS_TIME_MAX,
        ensures
            g.wf(),
            g.frame == 0,
            g.current_frame_start_ms == now_ms,
            g.duration_per_frame_ms == 1000 as u64 / fps as u64,
    {
        let duration: u64 = 1000u64 / (fps as u64);
        proof {
            assert(1 <= 1000 as int / (fps as int) && 1000 as int / (fps as int) <= 1000)
                by (nonlinear_arith)
                requires 1 <= fps as int <= 1000;
        }
        GameLoop::new(duration, now_ms)
    }

    /// Decides the current frame: if the scheduled end of the previous
    /// frame is still ahead, the caller should sleep until then and the
    /// next frame starts on schedule; otherwise the loop is lagging by
    /// the overshoot and the next frame starts immediately.
    pub fn tick(&mut self, now_ms: u64) -> (step: FrameStep)
        requires
            old(self).wf(),
            now_ms <= MS_TIME_MAX,
            old(self).current_frame_start_ms + old(self).duration_per_frame_ms <= MS_TIME_MAX,
            old(self).frame < 0xffffffffffffffff,
        ensures
            final(self).wf(),
            final(self).duration_per_frame_ms == old(self).duration_per_frame_ms,
            final(self).frame == old(self).frame + 1,
            step.frame == old(self).frame,
            ({
                let end = old(self).current_frame_start_ms + old(self).duration_per_frame_ms;
                if now_ms <= end {
                    &&& step.wait_ms == end - now_ms
                    &&& step.lag_ms == 0
                    &&& final(self).current_frame_start_ms == end
                } else {
                    &&& step.wait_ms == 0
                    &&& step.lag_ms == now_ms - end
                    &&& final(self).current_frame_start_ms == now_ms
                }
            }),
    {
        let end = self.current_frame_start_ms + self.duration_per_frame_ms;
        let frame = self.frame;
        self.frame = self.frame + 1;
        if now_ms <= end {
            self.current_frame_start_ms = end;
            FrameStep { frame, wait_ms: end - now_ms, lag_ms: 0 }
        } else {
            self.current_frame_start_ms = now_ms;
            FrameStep { frame, wait_ms: 0, lag_ms: now_ms - end }
        }
    }
}

/// Grab-bag of small helpers shared by the platform layers.
pub struct Utils;

impl Utils {
    /// Polls the position source until it yields a coordinate and returns
    /// the first one; used to fix the base point of a local frame.  Gives
    /// up after the given number of silent polls, so that even a dead
    /// source cannot hold the caller forever.
    pub fn get_base_point<GPS: Sensor<GeoCoord>>(gps_sensor: &mut GPS, max_polls: usize)
        -> Option<GeoCoord> {
        let mut k: usize = 0;
        while k < max_polls
            decreases max_polls - k,
        {
            let coord = gps_sensor.next();
            match coord {
                Some(c) => {
                    return Some(c);
                },
                None => {},
            }
            k += 1;
        }
        None
    }
}

/// Polls a combined sensor until it yields its first measurement, which
/// seeds the track; gives up after the given number of silent polls.
pub fn get_initial_measurement<T, S: Sensor<T>>(sensors: &mut S, max_polls: usize) -> Option<T> {
    let mut k: usize = 0;
    while k < max_polls
        decreases max_polls - k,
    {
        let measurement = sensors.next();
        match measurement {
            Some(m) => {
                return Some(m);
            },
            None => {},
        }
        k += 1;
    }
    None
}

/// Unwraps a result, falling back to a default value on failure; the
/// fallback is what keeps a control loop running through a bad tick.
pub trait LogErrUnwrap<T>: Sized {
    /// The value the unwrapping yields.
    spec fn unwrap_or_spec(self, default: T) -> T;

    fn log_err_unwrap(self, default: T) -> (r: T)
        ensures
            r == self.unwrap_or_spec(default),
    ;
}

impl<T, E> LogErrUnwrap<T> for Result<T, E> {
    open spec fn unwrap_or_spec(self, default: T) -> T {
        match self {
            Ok(v) => v,
            Err(_) => default,
        }
    }

    fn log_err_unwrap(self, default: T) -> (r: T) {
        match self {
            Ok(v) => v,
            Err(_) => default,
        }
    }
}

} // verus!
