//! Verified state-estimation core for a small mobile robot.
//!
//! The crate fuses noisy position and velocity measurements into a smoothed
//! trajectory with a linear Kalman filter, and provides the concurrency
//! building blocks (a fixed-rate background sampler core and an asynchronous
//! request/response worker core) that keep the estimation loop fed without
//! ever blocking it.
//!
//! All numeric work is done in fixed-point arithmetic: a real quantity `x` is
//! represented by the integer `round(x * FIX_ONE)`.  Every operation carries a
//! contract that pins its result down exactly, so the filter, the track and
//! the smoother are verified end to end.

pub mod actions;
pub mod deciders;
pub mod fixed;
pub mod geo;
pub mod gga;
pub mod logic;
pub mod kalman;
pub mod laws;
pub mod matrix;
pub mod model;
pub mod requester;
pub mod sampler;
pub mod state;
pub mod track;
pub mod user_input;
pub mod utils;
