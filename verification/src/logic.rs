//! Sensor combinators: pull-based sources and their preprocessing.
//!
//! A sensor is anything that can be pulled for a value; a device read may
//! silently fail or deliver nothing this tick, so pulling yields an
//! option and promises nothing about which.  Combinators attach a
//! preprocessing step or pair two sensors, and the preprocessing itself
//! is pinned down exactly.

use crate::geo::{Cartesian2D, GeoCoord, Velocity2D};
use core::marker::PhantomData;
use vstd::prelude::*;

verus! {

/// A source of geographic coordinates, such as a satellite receiver.
pub trait GPSSensor: Sensor<GeoCoord> {

}

/// A source of positions in the local Cartesian frame.
pub trait PositionSensor: Sensor<Cartesian2D> {

}

/// A source of velocities in the global frame.
pub trait VelocitySensor: Sensor<Velocity2D> {

}

/// A pull-based source of values.  A sensor with a preprocessing step is
/// built with [`PreprocessedSensor::new`], and two sensors are paired
/// with [`CombinedSensor::new`].
pub trait Sensor<T>: Sized {
    /// Pulls once; a device may or may not yield a value.
    fn next(&mut self) -> Option<T>;
}

/// A stateful transformation of sensor values; what it returns for a
/// given input is pinned down by its own spec.
pub trait Preprocessor<X, Y>: Sized {
    /// The value the preprocessor produces from `x` in its current state.
    spec fn out_of(&self, x: X) -> Y;

    fn run(&mut self, x: X) -> (y: Y)
        ensures
            y == old(self).out_of(x),
    ;
}

/// A sensor with a preprocessing step attached: every pulled value is
/// passed through the preprocessor.
pub struct PreprocessedSensor<T, U, S: Sensor<T>, P: Preprocessor<T, U>> {
    pub sensor: S,
    pub preprocessor: P,
    pub phantom: PhantomData<(T, U)>,
}

impl<T, U, S: Sensor<T>, P: Preprocessor<T, U>> PreprocessedSensor<T, U, S, P> {
    pub fn new(sensor: S, preprocessor: P) -> (r: PreprocessedSensor<T, U, S, P>)
        ensures
            r.sensor == sensor,
            r.preprocessor == preprocessor,
    {
        PreprocessedSensor { sensor, preprocessor, phantom: PhantomData }
    }
}

impl<T, U, S: Sensor<T>, P: Preprocessor<T, U>> Sensor<U> for PreprocessedSensor<T, U, S, P> {
    fn next(&mut self) -> Option<U> {
        let pulled = self.sensor.next();
        match pulled {
            Some(data) => Some(self.preprocessor.run(data)),
            None => None,
        }
    }
}

/// Two sensors pulled in lockstep; a value arrives only when both yield
/// one.
pub struct CombinedSensor<T, U, S1: Sensor<T>, S2: Sensor<U>> {
    pub sensor1: S1,
    pub sensor2: S2,
    pub phantom: PhantomData<(T, U)>,
}

impl<T, U, S1: Sensor<T>, S2: Sensor<U>> CombinedSensor<T, U, S1, S2> {
    pub fn new(sensor1: S1, sensor2: S2) -> (r: CombinedSensor<T, U, S1, S2>)
        ensures
            r.sensor1 == sensor1,
            r.sensor2 == sensor2,
    {
        CombinedSensor { sensor1, sensor2, phantom: PhantomData }
    }
}

impl<T, U, S1: Sensor<T>, S2: Sensor<U>> Sensor<(T, U)> for CombinedSensor<T, U, S1, S2> {
    fn next(&mut self) -> Option<(T, U)> {
        let first = self.sensor1.next();
        match first {
            Some(a) => {
                let second = self.sensor2.next();
                match second {
                    Some(b) => Some((a, b)),
                    None => None,
                }
            },
            None => None,
        }
    }
}

} // verus!
