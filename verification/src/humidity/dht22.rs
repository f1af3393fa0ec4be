//! Driver for the DHT22 temperature and humidity sensor.

use super::device::{
    measure_at, perform_measurement, perform_measurement_with_retries, tries_at, Device,
    Measurement, SensorType,
};
use super::error::DecodeError;
use super::line::{LineEvent, PulseTimer};
use super::protocol::Run;
use vstd::prelude::*;

verus! {

/// The reading that four data bytes of a DHT22 stand for. Humidity is the
/// 16-bit number of the first two bytes, in tenths of a percent. Temperature
/// is the 15-bit number of the last two, in tenths of a degree, below zero
/// when the top bit of the third byte is set.
pub open spec fn reading(rh_h: u8, rh_l: u8, temp_h: u8, temp_l: u8) -> Measurement {
    let magnitude = (temp_h % 128) * 256 + temp_l;
    Measurement {
        temperature: if temp_h >= 128 {
            (-magnitude) as i16
        } else {
            magnitude as i16
        },
        humidity: (rh_h * 256 + rh_l) as u16,
    }
}

/// Splits a sign-and-magnitude byte into its sign flag and its magnitude.
pub fn convert_signed(signed: u8) -> (parts: (bool, u8))
    ensures
        parts.0 == (signed >= 128),
        parts.1 == signed % 128,
{
    let sign = signed & 0x80 != 0;
    let magnitude = signed & 0x7F;
    assert((signed & 0x80 != 0) == (signed >= 128)) by (bit_vector);
    assert(signed & 0x7F == signed % 128) by (bit_vector);
    (sign, magnitude)
}

/// Converts the four data bytes of a frame.
pub fn raw_to_reading(bytes: [u8; 4]) -> (measurement: Measurement)
    ensures
        measurement == reading(bytes@[0], bytes@[1], bytes@[2], bytes@[3]),
{
    let rh_h = bytes[0];
    let rh_l = bytes[1];
    let temp_h_signed = bytes[2];
    let temp_l = bytes[3];
    let humidity = ((rh_h as u16) << 8) | (rh_l as u16);
    assert(((rh_h as u16) << 8) | (rh_l as u16) == rh_h * 256 + rh_l) by (bit_vector);
    let temperature = {
        let (signed, magnitude) = convert_signed(temp_h_signed);
        let temp_magnitude = ((magnitude as u16) << 8) | (temp_l as u16);
        assert(magnitude < 128 ==> ((magnitude as u16) << 8) | (temp_l as u16) == magnitude * 256
            + temp_l) by (bit_vector);
        if signed {
            -(temp_magnitude as i16)
        } else {
            temp_magnitude as i16
        }
    };
    Measurement { temperature, humidity }
}

/// A DHT22 device.
pub struct Dht22<L: PulseTimer> {
    /// The data line that the sensor hangs on.
    gpio: L,
}

impl<L: PulseTimer> Dht22<L> {
    /// Everything done to the data line so far.
    pub closed spec fn trace(&self) -> Seq<LineEvent> {
        self.gpio.trace()
    }

    /// The data line itself.
    pub closed spec fn line(&self) -> L {
        self.gpio
    }

    /// Creates a new DHT22 device connected to the specified line.
    pub fn new(gpio: L) -> (device: Self)
        ensures
            device.line() == gpio,
            device.trace() == gpio.trace(),
    {
        Dht22 { gpio }
    }

    /// Destroys the driver, returning the line.
    pub fn destroy(self) -> (gpio: L)
        ensures
            gpio == self.line(),
            gpio.trace() == self.trace(),
    {
        self.gpio
    }

    /// Attempts readings of the sensor until one succeeds, at most
    /// `retries` times after the first, and returns the first successful
    /// reading or the last error.
    pub fn perform_measurement_with_retries(&mut self, retries: u16) -> (measurement: Result<
        Measurement,
        DecodeError,
    >)
        ensures
            old(self).trace().is_prefix_of(final(self).trace()),
            tries_at(
                final(self).trace(),
                old(self).trace().len() as int,
                SensorType::Dht22,
                retries as nat,
            ) == (Run::Done { value: measurement, end: final(self).trace().len() as int }),
            measurement matches Err(error) ==> error.transient(),
    {
        perform_measurement_with_retries(&mut self.gpio, SensorType::Dht22, retries)
    }

    /// Performs a reading of the sensor.
    pub fn perform_measurement(&mut self) -> (measurement: Result<Measurement, DecodeError>)
        ensures
            old(self).trace().is_prefix_of(final(self).trace()),
            measure_at(final(self).trace(), old(self).trace().len() as int, SensorType::Dht22) == (
            Run::Done { value: measurement, end: final(self).trace().len() as int }),
            measurement matches Err(error) ==> error.transient(),
    {
        perform_measurement(&mut self.gpio, SensorType::Dht22)
    }
}

impl<L: PulseTimer> Device for Dht22<L> {
    open spec fn kind(&self) -> SensorType {
        SensorType::Dht22
    }

    closed spec fn events(&self) -> Seq<LineEvent> {
        self.gpio.trace()
    }

    fn perform_measurement(&mut self) -> (measurement: Result<Measurement, DecodeError>) {
        perform_measurement(&mut self.gpio, SensorType::Dht22)
    }

    fn perform_measurement_with_retries(&mut self, retries: u16) -> (measurement: Result<
        Measurement,
        DecodeError,
    >) {
        perform_measurement_with_retries(&mut self.gpio, SensorType::Dht22, retries)
    }
}

} // verus!
