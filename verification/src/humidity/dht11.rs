//! Driver for the DHT11 temperature and humidity sensor.

use super::device::{
    measure_at, perform_measurement, perform_measurement_with_retries, tries_at, Device,
    Measurement, SensorType,
};
use super::error::DecodeError;
use super::line::{LineEvent, PulseTimer};
use super::protocol::Run;
use vstd::prelude::*;

verus! {

/// The reading that four data bytes of a DHT11 stand for. The sensor reports
/// whole percent in the first byte and whole degrees in the third and has no
/// sign bit; the second and fourth byte are not used. The reading holds
/// tenths like every other, so each whole unit counts ten.
pub open spec fn reading(rh_h: u8, rh_l: u8, temp_h: u8, temp_l: u8) -> Measurement {
    Measurement { temperature: (temp_h * 10) as i16, humidity: (rh_h * 10) as u16 }
}

/// Converts the four data bytes of a frame.
pub fn raw_to_reading(bytes: [u8; 4]) -> (measurement: Measurement)
    ensures
        measurement == reading(bytes@[0], bytes@[1], bytes@[2], bytes@[3]),
{
    let rh_h = bytes[0];
    let temp_h = bytes[2];
    Measurement { temperature: temp_h as i16 * 10, humidity: rh_h as u16 * 10 }
}

/// A DHT11 device.
pub struct Dht11<L: PulseTimer> {
    /// The data line that the sensor hangs on.
    gpio: L,
}

impl<L: PulseTimer> Dht11<L> {
    /// Everything done to the data line so far.
    pub closed spec fn trace(&self) -> Seq<LineEvent> {
        self.gpio.trace()
    }

    /// The data line itself.
    pub closed spec fn line(&self) -> L {
        self.gpio
    }

    /// Creates a new DHT11 device connected to the specified line.
    pub fn new(gpio: L) -> (device: Self)
        ensures
            device.line() == gpio,
            device.trace() == gpio.trace(),
    {
        Dht11 { gpio }
    }

    /// Destroys the driver, returning the line.
    pub fn destroy(self) -> (gpio: L)
        ensures
            gpio == self.line(),
            gpio.trace() == self.trace(),
    {
        self.gpio
    }

    /// Attempts readings of the sensor until one succeeds, at most
    /// `retries` times after the first, and returns the first successful
    /// reading or the last error.
    pub fn perform_measurement_with_retries(&mut self, retries: u16) -> (measurement: Result<
        Measurement,
        DecodeError,
    >)
        ensures
            old(self).trace().is_prefix_of(final(self).trace()),
            tries_at(
                final(self).trace(),
                old(self).trace().len() as int,
                SensorType::Dht11,
                retries as nat,
            ) == (Run::Done { value: measurement, end: final(self).trace().len() as int }),
            measurement matches Err(error) ==> error.transient(),
    {
        perform_measurement_with_retries(&mut self.gpio, SensorType::Dht11, retries)
    }

    /// Performs a reading of the sensor.
    pub fn perform_measurement(&mut self) -> (measurement: Result<Measurement, DecodeError>)
        ensures
            old(self).trace().is_prefix_of(final(self).trace()),
            measure_at(final(self).trace(), old(self).trace().len() as int, SensorType::Dht11) == (
            Run::Done { value: measurement, end: final(self).trace().len() as int }),
            measurement matches Err(error) ==> error.transient(),
    {
        perform_measurement(&mut self.gpio, SensorType::Dht11)
    }
}

impl<L: PulseTimer> Device for Dht11<L> {
    open spec fn kind(&self) -> SensorType {
        SensorType::Dht11
    }

    closed spec fn events(&self) -> Seq<LineEvent> {
        self.gpio.trace()
    }

    fn perform_measurement(&mut self) -> (measurement: Result<Measurement, DecodeError>) {
        perform_measurement(&mut self.gpio, SensorType::Dht11)
    }

    fn perform_measurement_with_retries(&mut self, retries: u16) -> (measurement: Result<
        Measurement,
        DecodeError,
    >) {
        perform_measurement_with_retries(&mut self.gpio, SensorType::Dht11, retries)
    }
}

} // verus!
