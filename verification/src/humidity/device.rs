//! What a sensor reports, and how one measurement runs on the data line.

use super::dht11;
use super::dht22;
use super::error::DecodeError;
use super::line::{LineEvent, PulseTimer};
use super::protocol::{
    frame_at, law_steady_line_times_out, lemma_frame_extend, lemma_frame_failure,
    lemma_prefix_chain, read_frame, steady, Run,
};
use vstd::prelude::*;

verus! {

/// How long to wait between successive retries (in milliseconds)
pub const RETRY_DELAY: u16 = 100;

/// The two sensor models that speak the single-line protocol.
#[derive(Clone, Copy, Debug, PartialEq, Eq, Structural)]
pub enum SensorType {
    Dht22,
    Dht11,
}

/// One temperature and humidity sample, in fixed point.
#[derive(Clone, Copy, Debug, PartialEq, Eq, Structural)]
pub struct Measurement {
    /// The measured temperature in tenths of degrees Celsius.
    pub temperature: i16,
    /// The measured humidity in tenths of a percent.
    pub humidity: u16,
}

impl Default for Measurement {
    fn default() -> (zero: Self)
        ensures
            zero == (Measurement { temperature: 0, humidity: 0 }),
    {
        Measurement { temperature: 0, humidity: 0 }
    }
}

/// The checksum of four data bytes: their sum modulo 256.
pub open spec fn checksum(b0: u8, b1: u8, b2: u8, b3: u8) -> u8 {
    ((b0 + b1 + b2 + b3) % 256) as u8
}

/// The reading that four data bytes stand for, by sensor model.
pub open spec fn convert(kind: SensorType, b0: u8, b1: u8, b2: u8, b3: u8) -> Measurement {
    match kind {
        SensorType::Dht22 => dht22::reading(b0, b1, b2, b3),
        SensorType::Dht11 => dht11::reading(b0, b1, b2, b3),
    }
}

/// What a frame of five bytes decodes to: the reading of its four data
/// bytes where the fifth byte is their checksum, a checksum mismatch
/// otherwise.
pub open spec fn decoded(kind: SensorType, frame: Seq<u8>) -> Result<Measurement, DecodeError> {
    if checksum(frame[0], frame[1], frame[2], frame[3]) == frame[4] {
        Ok(convert(kind, frame[0], frame[1], frame[2], frame[3]))
    } else {
        Err(DecodeError::CrcMismatch)
    }
}

/// Checks the checksum of a frame and converts its data bytes.
pub fn decode(kind: SensorType, data: [u8; 5]) -> (measurement: Result<Measurement, DecodeError>)
    ensures
        measurement == decoded(kind, data@),
{
    // Check CRC
    let crc = data[0].wrapping_add(data[1]).wrapping_add(data[2]).wrapping_add(data[3]);
    if crc != data[4] {
        return Err(DecodeError::CrcMismatch);
    }
    let bytes = [data[0], data[1], data[2], data[3]];
    Ok(
        match kind {
            SensorType::Dht22 => dht22::raw_to_reading(bytes),
            SensorType::Dht11 => dht11::raw_to_reading(bytes),
        },
    )
}

/// One measurement from `p`: an exchange on the line, then the decoding of
/// the frame that it gave.
pub open spec fn measure_at(t: Seq<LineEvent>, p: int, kind: SensorType) -> Run<
    Result<Measurement, DecodeError>,
> {
    match frame_at(t, p) {
        Run::Done { value: Ok(frame), end } => Run::Done { value: decoded(kind, frame), end },
        Run::Done { value: Err(error), end } => Run::Done { value: Err(error), end },
        Run::Stray => Run::Stray,
    }
}

/// A measurement with up to `retries` further attempts from `p`: after a
/// failed attempt and a wait of `RETRY_DELAY` the next one starts; after a
/// successful attempt nothing more is done.
pub open spec fn tries_at(t: Seq<LineEvent>, p: int, kind: SensorType, retries: nat) -> Run<
    Result<Measurement, DecodeError>,
>
    decreases retries,
{
    if retries == 0 {
        measure_at(t, p, kind)
    } else {
        match tries_at(t, p, kind, (retries - 1) as nat) {
            Run::Done { value: Ok(measurement), end } => Run::Done { value: Ok(measurement), end },
            Run::Done { value: Err(_), end } => if 0 <= end < t.len() && t[end] == LineEvent::WaitMs(
                RETRY_DELAY,
            ) {
                measure_at(t, end + 1, kind)
            } else {
                Run::Stray
            },
            Run::Stray => Run::Stray,
        }
    }
}

/// A complete measurement reads the same in every longer trace.
pub proof fn lemma_measure_extend(t: Seq<LineEvent>, u: Seq<LineEvent>, p: int, kind: SensorType)
    requires
        t.is_prefix_of(u),
        measure_at(t, p, kind) is Done,
    ensures
        measure_at(u, p, kind) == measure_at(t, p, kind),
{
    lemma_frame_extend(t, u, p);
}

/// A complete run of attempts reads the same in every longer trace.
pub proof fn lemma_tries_extend(
    t: Seq<LineEvent>,
    u: Seq<LineEvent>,
    p: int,
    kind: SensorType,
    retries: nat,
)
    requires
        t.is_prefix_of(u),
        tries_at(t, p, kind, retries) is Done,
    ensures
        tries_at(u, p, kind, retries) == tries_at(t, p, kind, retries),
    decreases retries,
{
    if retries == 0 {
        lemma_measure_extend(t, u, p, kind);
    } else {
        lemma_tries_extend(t, u, p, kind, (retries - 1) as nat);
        let before = tries_at(t, p, kind, (retries - 1) as nat);
        if before->value is Err {
            lemma_measure_extend(t, u, before->end + 1, kind);
        }
    }
}

/// After a success, further retries change nothing: the first successful
/// reading is the result.
pub proof fn law_first_success_stands(
    t: Seq<LineEvent>,
    p: int,
    kind: SensorType,
    made: nat,
    retries: nat,
)
    requires
        made <= retries,
        tries_at(t, p, kind, made) is Done,
        tries_at(t, p, kind, made)->value is Ok,
    ensures
        tries_at(t, p, kind, retries) == tries_at(t, p, kind, made),
    decreases retries,
{
    if made < retries {
        law_first_success_stands(t, p, kind, made, (retries - 1) as nat);
    }
}

/// A measurement fails by a timeout or by a checksum mismatch. The line's
/// operations cannot fail, so no failure of the GPIO peripheral shows up
/// while measuring, and every failure is worth another attempt.
pub proof fn law_failures_are_transient(t: Seq<LineEvent>, p: int, kind: SensorType, retries: nat)
    ensures
        measure_at(t, p, kind) matches Run::Done { value: Err(error), .. } ==> error.transient(),
        tries_at(t, p, kind, retries) matches Run::Done { value: Err(error), .. }
            ==> error.transient(),
    decreases retries,
{
    if frame_at(t, p) is Done && frame_at(t, p)->value is Err {
        lemma_frame_failure(t, p);
    }
    if retries > 0 {
        law_failures_are_transient(t, p, kind, (retries - 1) as nat);
        let before = tries_at(t, p, kind, (retries - 1) as nat);
        if before is Done && before->value is Err {
            law_failures_are_transient(t, before->end + 1, kind, 0);
        }
    }
}

/// With no retries a retried measurement is a single measurement.
pub proof fn law_no_retries(t: Seq<LineEvent>, p: int, kind: SensorType)
    ensures
        tries_at(t, p, kind, 0) == measure_at(t, p, kind),
{
}

/// A frame whose fifth byte is the checksum of the other four never fails
/// the checksum test.
pub proof fn law_checksum_accepted(kind: SensorType, b0: u8, b1: u8, b2: u8, b3: u8)
    ensures
        decoded(kind, seq![b0, b1, b2, b3, checksum(b0, b1, b2, b3)]) == Ok::<
            Measurement,
            DecodeError,
        >(convert(kind, b0, b1, b2, b3)),
{
}

/// A frame whose checksum byte differs from the checksum in a single bit
/// always fails the checksum test.
pub proof fn law_flipped_checksum_rejected(
    kind: SensorType,
    b0: u8,
    b1: u8,
    b2: u8,
    b3: u8,
    bit: u8,
)
    requires
        bit < 8,
    ensures
        decoded(kind, seq![b0, b1, b2, b3, checksum(b0, b1, b2, b3) ^ (1u8 << bit)]) == Err::<
            Measurement,
            DecodeError,
        >(DecodeError::CrcMismatch),
{
    let sum = checksum(b0, b1, b2, b3);
    assert(bit < 8 ==> sum ^ (1u8 << bit) != sum) by (bit_vector);
}

/// A measurement on a line that never changes its level fails with a
/// timeout.
pub proof fn law_silent_line_times_out(t: Seq<LineEvent>, p: int, kind: SensorType, level: bool)
    requires
        measure_at(t, p, kind) is Done,
        steady(t, p, measure_at(t, p, kind)->end, level),
    ensures
        measure_at(t, p, kind)->value == Err::<Measurement, DecodeError>(DecodeError::Timeout),
{
    law_steady_line_times_out(t, p, level);
}

/// Performs a reading of the sensor on `line`: one exchange, then the
/// checksum and the conversion.
pub fn perform_measurement<L: PulseTimer>(line: &mut L, kind: SensorType) -> (measurement: Result<
    Measurement,
    DecodeError,
>)
    ensures
        old(line).trace().is_prefix_of(final(line).trace()),
        measure_at(final(line).trace(), old(line).trace().len() as int, kind) == (Run::Done {
            value: measurement,
            end: final(line).trace().len() as int,
        }),
        measurement matches Err(error) ==> error.transient(),
{
    let frame = read_frame(line);
    proof {
        law_failures_are_transient(line.trace(), old(line).trace().len() as int, kind, 0);
    }
    decode(kind, frame?)
}

/// Attempts readings of the sensor on `line` until one succeeds, at most
/// `retries` times after the first, `RETRY_DELAY` apart, and returns the
/// first successful reading or the last error.
pub fn perform_measurement_with_retries<L: PulseTimer>(
    line: &mut L,
    kind: SensorType,
    retries: u16,
) -> (measurement: Result<Measurement, DecodeError>)
    ensures
        old(line).trace().is_prefix_of(final(line).trace()),
        tries_at(final(line).trace(), old(line).trace().len() as int, kind, retries as nat) == (
        Run::Done { value: measurement, end: final(line).trace().len() as int }),
        measurement matches Err(error) ==> error.transient(),
{
    let ghost start = old(line).trace().len() as int;
    let mut result = perform_measurement(line, kind);
    let mut made: u16 = 0;
    while made < retries && result.is_err()
        invariant
            made <= retries,
            start == old(line).trace().len(),
            old(line).trace().is_prefix_of(line.trace()),
            tries_at(line.trace(), start, kind, made as nat) == (Run::Done {
                value: result,
                end: line.trace().len() as int,
            }),
        decreases retries - made,
    {
        let ghost failed = line.trace();
        line.delay_ms(RETRY_DELAY);
        let ghost waited = line.trace();
        result = perform_measurement(line, kind);
        proof {
            assert(failed.is_prefix_of(waited));
            lemma_prefix_chain(failed, waited, line.trace());
            lemma_prefix_chain(old(line).trace(), failed, line.trace());
            lemma_tries_extend(failed, line.trace(), start, kind, made as nat);
            assert(waited =~= line.trace().subrange(0, waited.len() as int));
            assert(line.trace()[failed.len() as int] == waited[failed.len() as int]);
        }
        made += 1;
    }
    proof {
        if made < retries {
            law_first_success_stands(line.trace(), start, kind, made as nat, retries as nat);
        }
        law_failures_are_transient(line.trace(), start, kind, retries as nat);
    }
    result
}

/// A sensor that can be asked for a measurement.
pub trait Device {
    /// The model of the sensor.
    spec fn kind(&self) -> SensorType;

    /// Everything done to the sensor's data line so far.
    spec fn events(&self) -> Seq<LineEvent>;

    /// Performs a reading of the sensor.
    fn perform_measurement(&mut self) -> (measurement: Result<Measurement, DecodeError>)
        ensures
            final(self).kind() == old(self).kind(),
            old(self).events().is_prefix_of(final(self).events()),
            measure_at(final(self).events(), old(self).events().len() as int, old(self).kind()) == (
            Run::Done { value: measurement, end: final(self).events().len() as int }),
    ;

    /// Attempts readings of the sensor until one succeeds, at most
    /// `retries` times after the first, and returns the first successful
    /// reading or the last error.
    fn perform_measurement_with_retries(&mut self, retries: u16) -> (measurement: Result<
        Measurement,
        DecodeError,
    >)
        ensures
            final(self).kind() == old(self).kind(),
            old(self).events().is_prefix_of(final(self).events()),
            tries_at(
                final(self).events(),
                old(self).events().len() as int,
                old(self).kind(),
                retries as nat,
            ) == (Run::Done { value: measurement, end: final(self).events().len() as int }),
    ;
}

} // verus!
