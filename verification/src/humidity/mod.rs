//! Temperature and humidity sensing over a single data line.

pub mod device;
pub mod dht11;
pub mod dht22;
pub mod error;
pub mod line;
pub mod protocol;
pub mod tracker;

use crate::circular::Circular;
pub use device::{Device, Measurement, SensorType};
pub use error::DecodeError;
pub use tracker::{Reading, Timestamp, Tracker};
use vstd::prelude::*;

verus! {

/// A place that takes each new reading of a sampling loop.
pub trait Update {
    /// Takes the newest reading.
    fn update(&mut self, reading: Reading);
}

impl Update for Circular<Reading, 10> {
    /// Appends the reading to the history.
    fn update(&mut self, reading: Reading)
        ensures
            final(self)@ == old(self)@.stored(reading),
    {
        self.add(reading);
    }
}

} // verus!
