//! One sensor on one line, read with a fixed retry budget and stamped with
//! the time of the reading.

use super::device::{tries_at, Measurement, SensorType};
use super::dht11::Dht11;
use super::dht22::Dht22;
use super::error::DecodeError;
use super::line::{GpioLine, LineEvent, PulseTimer};
use super::protocol::Run;
use vstd::prelude::*;

verus! {

/// How many further attempts a reading gets after the first has failed.
pub const READ_RETRIES: u16 = 10;

/// A moment in time: whole seconds since the start of 1970 in UTC, leap
/// seconds not counted, and the nanoseconds since the last whole second.
#[derive(Clone, Copy, Debug, PartialEq, Eq, Structural)]
pub struct Timestamp {
    pub seconds: i64,
    pub nanoseconds: u32,
}

/// `Utc::now`, taken apart by `DateTime::timestamp` and
/// `DateTime::timestamp_subsec_nanos`: the wall-clock time of the machine.
/// Nothing is known of the moment that comes back. The call panics on a
/// machine whose clock stands before 1970.
#[verifier::external_body]
fn utc_now() -> Timestamp {
    let now = chrono::Utc::now();
    Timestamp { seconds: now.timestamp(), nanoseconds: now.timestamp_subsec_nanos() }
}

/// A measurement and the moment at which it was taken.
#[derive(Clone, Copy, Debug, PartialEq, Eq, Structural)]
pub struct Reading {
    pub result: Measurement,
    pub time: Timestamp,
}

/// The sensor that a tracker reads.
enum Sensor<L: PulseTimer> {
    Dht22(Dht22<L>),
    Dht11(Dht11<L>),
}

/// Owns one sensor and reads it on request.
pub struct Tracker<L: PulseTimer> {
    sensor: Sensor<L>,
}

impl Tracker<GpioLine> {
    /// A tracker for a sensor of the given model on the GPIO pin with the
    /// given BCM number. Fails when the pin cannot be had.
    pub fn new(sensor_type: SensorType, gpio_pin: u8) -> (tracker: Result<Self, DecodeError>)
        ensures
            match tracker {
                Ok(tracker) => tracker.kind() == sensor_type && tracker.trace() == Seq::<
                    LineEvent,
                >::empty(),
                Err(error) => error is GpioError,
            },
    {
        let line = GpioLine::open(gpio_pin)?;
        Ok(Tracker::with_line(sensor_type, line))
    }
}

impl<L: PulseTimer> Tracker<L> {
    /// The model of the sensor.
    pub closed spec fn kind(&self) -> SensorType {
        match self.sensor {
            Sensor::Dht22(_) => SensorType::Dht22,
            Sensor::Dht11(_) => SensorType::Dht11,
        }
    }

    /// Everything done to the sensor's data line so far.
    pub closed spec fn trace(&self) -> Seq<LineEvent> {
        match self.sensor {
            Sensor::Dht22(device) => device.trace(),
            Sensor::Dht11(device) => device.trace(),
        }
    }

    /// A tracker for a sensor of the given model on `line`.
    pub fn with_line(sensor_type: SensorType, line: L) -> (tracker: Self)
        ensures
            tracker.kind() == sensor_type,
            tracker.trace() == line.trace(),
    {
        match sensor_type {
            SensorType::Dht22 => Tracker { sensor: Sensor::Dht22(Dht22::new(line)) },
            SensorType::Dht11 => Tracker { sensor: Sensor::Dht11(Dht11::new(line)) },
        }
    }

    /// Reads the sensor, with `READ_RETRIES` further attempts after a
    /// failure, and stamps a successful measurement with the current time.
    pub fn read(&mut self) -> (reading: Result<Reading, DecodeError>)
        ensures
            final(self).kind() == old(self).kind(),
            old(self).trace().is_prefix_of(final(self).trace()),
            tries_at(
                final(self).trace(),
                old(self).trace().len() as int,
                old(self).kind(),
                READ_RETRIES as nat,
            ) == (Run::Done {
                value: match reading {
                    Ok(reading) => Ok(reading.result),
                    Err(error) => Err(error),
                },
                end: final(self).trace().len() as int,
            }),
            reading matches Err(error) ==> error.transient(),
    {
        match &mut self.sensor {
            Sensor::Dht22(dht22) => {
                match dht22.perform_measurement_with_retries(READ_RETRIES) {
                    Ok(result) => Ok(Reading { result, time: utc_now() }),
                    Err(e) => Err(e),
                }
            },
            Sensor::Dht11(dht11) => {
                match dht11.perform_measurement_with_retries(READ_RETRIES) {
                    Ok(result) => Ok(Reading { result, time: utc_now() }),
                    Err(e) => Err(e),
                }
            },
        }
    }
}

} // verus!
