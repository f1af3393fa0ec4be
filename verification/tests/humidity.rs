use pi_grow::circular::Circular;
use pi_grow::humidity::device::{decode, perform_measurement, perform_measurement_with_retries};
use pi_grow::humidity::dht11::{self, Dht11};
use pi_grow::humidity::dht22::{self, convert_signed, Dht22};
use pi_grow::humidity::line::{LineEvent, LineMode, PulseTimer, SimulatedLine};
use pi_grow::humidity::protocol::{perform_handshake, read_bit, read_frame, wait_for_pulse};
use pi_grow::humidity::{DecodeError, Device, Measurement, Reading, SensorType, Timestamp, Tracker, Update};

/// The levels of one bit slot: a low pulse of `low` samples and a high pulse
/// of `high` samples, each ended by the sample that shows the other level.
fn slot(low: usize, high: usize) -> Vec<bool> {
    let mut levels = vec![false; low];
    levels.push(true);
    levels.extend(vec![true; high]);
    levels.push(false);
    levels
}

/// The levels of a whole exchange that sends `bytes`.
fn exchange(bytes: [u8; 5]) -> Vec<bool> {
    let mut levels = slot(4, 4);
    for byte in bytes {
        for bit in (0..8).rev() {
            if byte >> bit & 1 == 1 {
                levels.extend(slot(3, 7));
            } else {
                levels.extend(slot(3, 2));
            }
        }
    }
    levels
}

fn with_checksum(data: [u8; 4]) -> [u8; 5] {
    let sum = data.iter().fold(0u8, |sum, byte| sum.wrapping_add(*byte));
    [data[0], data[1], data[2], data[3], sum]
}

fn start_signal() -> Vec<LineEvent> {
    vec![
        LineEvent::Mode(LineMode::Output),
        LineEvent::High,
        LineEvent::WaitMs(1),
        LineEvent::Low,
        LineEvent::WaitMs(20),
        LineEvent::High,
        LineEvent::WaitUs(40),
        LineEvent::Mode(LineMode::Input),
    ]
}

#[test]
fn simulated_line_plays_its_script() {
    let mut line = SimulatedLine::new(vec![false, true], true);
    assert!(!line.is_high());
    line.delay_us(1);
    assert!(line.is_high());
    assert!(line.is_high());
    assert_eq!(line.samples_taken(), 2);
    assert_eq!(
        line.events().as_slice(),
        &[LineEvent::Read(false), LineEvent::WaitUs(1), LineEvent::Read(true), LineEvent::Read(true)]
    );
}

#[test]
fn simulated_line_records_every_operation() {
    let mut line = SimulatedLine::new(vec![], false);
    line.set_mode(LineMode::Output);
    line.set_low();
    line.delay_ms(20);
    line.set_high();
    line.set_mode(LineMode::Input);
    assert_eq!(
        line.events().as_slice(),
        &[
            LineEvent::Mode(LineMode::Output),
            LineEvent::Low,
            LineEvent::WaitMs(20),
            LineEvent::High,
            LineEvent::Mode(LineMode::Input)
        ]
    );
}

#[test]
fn wait_counts_the_polls_before_the_level() {
    let mut line = SimulatedLine::new(vec![false, false, false, true], false);
    assert!(matches!(wait_for_pulse(&mut line, true), Ok(3)));
    assert_eq!(
        line.events().as_slice(),
        &[
            LineEvent::Read(false),
            LineEvent::WaitUs(1),
            LineEvent::Read(false),
            LineEvent::WaitUs(1),
            LineEvent::Read(false),
            LineEvent::WaitUs(1),
            LineEvent::Read(true)
        ]
    );
}

#[test]
fn wait_returns_at_once_on_the_level() {
    let mut line = SimulatedLine::new(vec![], true);
    assert!(matches!(wait_for_pulse(&mut line, true), Ok(0)));
    assert_eq!(line.events().as_slice(), &[LineEvent::Read(true)]);
}

#[test]
fn wait_succeeds_on_the_last_allowed_poll() {
    let mut levels = vec![true; 1000];
    levels.push(false);
    let mut line = SimulatedLine::new(levels, true);
    assert!(matches!(wait_for_pulse(&mut line, false), Ok(1000)));
    assert_eq!(line.events().len(), 2001);
}

#[test]
fn wait_times_out_after_the_poll_limit() {
    let mut levels = vec![true; 1001];
    levels.push(false);
    let mut line = SimulatedLine::new(levels, false);
    assert!(matches!(wait_for_pulse(&mut line, false), Err(DecodeError::Timeout)));
    assert_eq!(line.samples_taken(), 1001);
    assert_eq!(line.events().len(), 2001);
    assert_eq!(line.events()[2000], LineEvent::Read(true));
    assert_eq!(line.events()[1999], LineEvent::WaitUs(1));
}

#[test]
fn bit_is_set_when_high_pulse_is_longer() {
    let mut line = SimulatedLine::new(slot(2, 5), false);
    assert!(matches!(read_bit(&mut line), Ok(true)));
    let mut line = SimulatedLine::new(slot(5, 2), false);
    assert!(matches!(read_bit(&mut line), Ok(false)));
    let mut line = SimulatedLine::new(slot(3, 3), false);
    assert!(matches!(read_bit(&mut line), Ok(false)));
}

#[test]
fn bit_fails_when_either_pulse_times_out() {
    let mut line = SimulatedLine::new(vec![], false);
    assert!(matches!(read_bit(&mut line), Err(DecodeError::Timeout)));
    let mut line = SimulatedLine::new(vec![], true);
    assert!(matches!(read_bit(&mut line), Err(DecodeError::Timeout)));
    assert_eq!(line.events().len(), 1 + 2001);
}

#[test]
fn handshake_sends_the_start_signal() {
    let mut line = SimulatedLine::new(slot(4, 4), false);
    assert!(matches!(perform_handshake(&mut line), Ok(())));
    assert_eq!(&line.events()[..8], start_signal().as_slice());
    assert_eq!(line.samples_taken(), 10);
    assert!(line.events()[8..]
        .iter()
        .all(|event| matches!(event, LineEvent::Read(_) | LineEvent::WaitUs(1))));
}

#[test]
fn handshake_fails_without_acknowledgment() {
    let mut line = SimulatedLine::new(vec![], false);
    assert!(matches!(perform_handshake(&mut line), Err(DecodeError::Timeout)));
    assert_eq!(&line.events()[..8], start_signal().as_slice());
}

#[test]
fn frame_is_packed_most_significant_bit_first() {
    let bytes = [0x80, 0x01, 0xA5, 0x5A, 0xFF];
    let mut line = SimulatedLine::new(exchange(bytes), true);
    assert!(matches!(read_frame(&mut line), Ok(frame) if frame == bytes));
    let mut line = SimulatedLine::new(exchange([0, 0, 0, 0, 0]), true);
    assert!(matches!(read_frame(&mut line), Ok(frame) if frame == [0, 0, 0, 0, 0]));
}

#[test]
fn frame_reads_nothing_after_the_last_bit() {
    let levels = exchange([1, 2, 3, 4, 10]);
    let expected = levels.len();
    let mut line = SimulatedLine::new(levels, true);
    assert!(read_frame(&mut line).is_ok());
    assert_eq!(line.samples_taken(), expected);
    let reads = line.events().iter().filter(|event| matches!(event, LineEvent::Read(_))).count();
    assert_eq!(reads, expected);
}

#[test]
fn frame_stops_at_the_first_timeout() {
    let mut levels = exchange([1, 2, 3, 4, 10]);
    levels.truncate(levels.len() / 2);
    let mut line = SimulatedLine::new(levels, true);
    assert!(matches!(read_frame(&mut line), Err(DecodeError::Timeout)));
}

#[test]
fn convert_signed_splits_sign_and_magnitude() {
    assert_eq!(convert_signed(0x00), (false, 0));
    assert_eq!(convert_signed(0x01), (false, 1));
    assert_eq!(convert_signed(0x7F), (false, 0x7F));
    assert_eq!(convert_signed(0x80), (true, 0));
    assert_eq!(convert_signed(0x81), (true, 1));
    assert_eq!(convert_signed(0xFF), (true, 0x7F));
}

#[test]
fn dht22_conversion_example() {
    let reading = dht22::raw_to_reading([0x02, 0x8C, 0x01, 0x10]);
    assert_eq!(reading, Measurement { temperature: 272, humidity: 652 });
    assert_eq!(reading.humidity as f32 / 10.0, 65.2);
    assert_eq!(reading.temperature as f32 / 10.0, 27.2);
    let reading = dht22::raw_to_reading([0x02, 0x8C, 0x81, 0x10]);
    assert_eq!(reading, Measurement { temperature: -272, humidity: 652 });
    assert_eq!(reading.temperature as f32 / 10.0, -27.2);
}

#[test]
fn dht22_conversion_at_the_limits() {
    assert_eq!(
        dht22::raw_to_reading([0xFF, 0xFF, 0x7F, 0xFF]),
        Measurement { temperature: 32767, humidity: 65535 }
    );
    assert_eq!(
        dht22::raw_to_reading([0x00, 0x00, 0xFF, 0xFF]),
        Measurement { temperature: -32767, humidity: 0 }
    );
    assert_eq!(
        dht22::raw_to_reading([0x00, 0x00, 0x80, 0x00]),
        Measurement { temperature: 0, humidity: 0 }
    );
}

#[test]
fn dht11_conversion_uses_the_high_bytes_only() {
    assert_eq!(
        dht11::raw_to_reading([0x28, 0x63, 0x17, 0x09]),
        Measurement { temperature: 230, humidity: 400 }
    );
    assert_eq!(
        dht11::raw_to_reading([0xFF, 0x00, 0xFF, 0x00]),
        Measurement { temperature: 2550, humidity: 2550 }
    );
}

#[test]
fn default_measurement_is_zero() {
    assert_eq!(Measurement::default(), Measurement { temperature: 0, humidity: 0 });
}

#[test]
fn decode_accepts_the_right_checksum() {
    let frame = with_checksum([0x02, 0x8C, 0x01, 0x10]);
    assert_eq!(frame[4], 0x9F);
    assert!(matches!(
        decode(SensorType::Dht22, frame),
        Ok(Measurement { temperature: 272, humidity: 652 })
    ));
    assert!(matches!(
        decode(SensorType::Dht11, frame),
        Ok(Measurement { temperature: 10, humidity: 20 })
    ));
}

#[test]
fn decode_checksum_wraps_at_256() {
    let frame = [0xFF, 0xFF, 0x7F, 0xFF, 0x7C];
    assert!(matches!(
        decode(SensorType::Dht22, frame),
        Ok(Measurement { temperature: 32767, humidity: 65535 })
    ));
}

#[test]
fn decode_rejects_every_flipped_checksum_bit() {
    for data in [[0x02, 0x8C, 0x01, 0x10], [0, 0, 0, 0], [0xFF, 0xFF, 0xFF, 0xFF], [1, 2, 3, 250]] {
        let frame = with_checksum(data);
        assert!(decode(SensorType::Dht22, frame).is_ok());
        assert!(decode(SensorType::Dht11, frame).is_ok());
        for bit in 0..8 {
            let mut flipped = frame;
            flipped[4] ^= 1 << bit;
            assert!(matches!(decode(SensorType::Dht22, flipped), Err(DecodeError::CrcMismatch)));
            assert!(matches!(decode(SensorType::Dht11, flipped), Err(DecodeError::CrcMismatch)));
        }
    }
}

#[test]
fn measurement_decodes_what_the_line_sends() {
    let frame = with_checksum([0x02, 0x8C, 0x81, 0x10]);
    let mut device = Dht22::new(SimulatedLine::new(exchange(frame), true));
    assert!(matches!(
        device.perform_measurement(),
        Ok(Measurement { temperature: -272, humidity: 652 })
    ));
    let line = device.destroy();
    assert_eq!(&line.events()[..8], start_signal().as_slice());
    assert_eq!(line.samples_taken(), exchange(frame).len());

    let mut device = Dht11::new(SimulatedLine::new(exchange(frame), true));
    assert!(matches!(
        device.perform_measurement(),
        Ok(Measurement { temperature: 1290, humidity: 20 })
    ));
}

#[test]
fn measurement_reports_a_corrupted_frame() {
    let mut frame = with_checksum([0x02, 0x8C, 0x01, 0x10]);
    frame[1] ^= 0x04;
    let mut device = Dht22::new(SimulatedLine::new(exchange(frame), true));
    assert!(matches!(device.perform_measurement(), Err(DecodeError::CrcMismatch)));
}

#[test]
fn measurement_times_out_on_a_silent_line() {
    for idle in [false, true] {
        let mut device = Dht22::new(SimulatedLine::new(vec![], idle));
        assert!(matches!(device.perform_measurement(), Err(DecodeError::Timeout)));
        let line = device.destroy();
        assert_eq!(&line.events()[..8], start_signal().as_slice());
        let reads =
            line.events().iter().filter(|event| matches!(event, LineEvent::Read(_))).count();
        assert_eq!(reads, if idle { 1002 } else { 1001 });
    }
}

#[test]
fn measurement_leaves_the_line_released() {
    for levels in [vec![], exchange(with_checksum([1, 2, 3, 4])), exchange([1, 2, 3, 4, 0])] {
        let mut line = SimulatedLine::new(levels, false);
        let _ = perform_measurement(&mut line, SensorType::Dht22);
        let last_mode = line.events().iter().rev().find(|event| matches!(event, LineEvent::Mode(_)));
        assert_eq!(last_mode, Some(&LineEvent::Mode(LineMode::Input)));
    }
}

/// Two exchanges that fail, the first by a timeout and the second by its
/// checksum, and a third that succeeds.
fn third_time_lucky() -> Vec<bool> {
    let mut levels = vec![false; 1001];
    levels.extend(exchange([1, 2, 3, 4, 0]));
    levels.extend(exchange(with_checksum([0x02, 0x8C, 0x01, 0x10])));
    levels
}

#[test]
fn retries_return_the_first_success() {
    for retries in [2, 3, 10, u16::MAX] {
        let mut device = Dht22::new(SimulatedLine::new(third_time_lucky(), false));
        assert!(matches!(
            device.perform_measurement_with_retries(retries),
            Ok(Measurement { temperature: 272, humidity: 652 })
        ));
        let line = device.destroy();
        assert_eq!(line.samples_taken(), third_time_lucky().len());
        let pauses =
            line.events().iter().filter(|event| **event == LineEvent::WaitMs(100)).count();
        assert_eq!(pauses, 2);
    }
}

#[test]
fn retries_return_the_last_failure() {
    let mut device = Dht22::new(SimulatedLine::new(third_time_lucky(), false));
    assert!(matches!(device.perform_measurement_with_retries(1), Err(DecodeError::CrcMismatch)));
    let mut device = Dht22::new(SimulatedLine::new(third_time_lucky(), false));
    assert!(matches!(device.perform_measurement_with_retries(0), Err(DecodeError::Timeout)));
}

#[test]
fn no_retries_is_a_single_measurement() {
    let mut line = SimulatedLine::new(third_time_lucky(), false);
    let retried = perform_measurement_with_retries(&mut line, SensorType::Dht22, 0);
    let mut other = SimulatedLine::new(third_time_lucky(), false);
    let single = perform_measurement(&mut other, SensorType::Dht22);
    assert!(matches!(retried, Err(DecodeError::Timeout)));
    assert!(matches!(single, Err(DecodeError::Timeout)));
    assert_eq!(line.events(), other.events());
}

#[test]
fn retries_wait_between_attempts_only() {
    let mut line = SimulatedLine::new(vec![], false);
    let outcome = perform_measurement_with_retries(&mut line, SensorType::Dht11, 3);
    assert!(matches!(outcome, Err(DecodeError::Timeout)));
    let events = line.events();
    let pauses = events.iter().filter(|event| **event == LineEvent::WaitMs(100)).count();
    assert_eq!(pauses, 3);
    assert_eq!(events.len(), 4 * (8 + 2001) + 3);
    assert_eq!(events[8 + 2001], LineEvent::WaitMs(100));
    assert!(matches!(events[events.len() - 1], LineEvent::Read(false)));
}

#[test]
fn device_trait_reaches_both_sensors() {
    fn measure<D: Device>(device: &mut D) -> Result<Measurement, DecodeError> {
        device.perform_measurement_with_retries(1)
    }
    let frame = with_checksum([0x03, 0x00, 0x02, 0x00]);
    let mut levels = exchange([9, 9, 9, 9, 9]);
    levels.extend(exchange(frame));
    let mut dht22 = Dht22::new(SimulatedLine::new(levels.clone(), true));
    assert!(matches!(measure(&mut dht22), Ok(Measurement { temperature: 512, humidity: 768 })));
    let mut dht11 = Dht11::new(SimulatedLine::new(levels, true));
    assert!(matches!(measure(&mut dht11), Ok(Measurement { temperature: 20, humidity: 30 })));
    let mut dht11 = Dht11::new(SimulatedLine::new(exchange(frame), true));
    assert!(matches!(
        Device::perform_measurement(&mut dht11),
        Ok(Measurement { temperature: 20, humidity: 30 })
    ));
}

#[test]
fn tracker_stamps_a_successful_reading() {
    let frame = with_checksum([0x02, 0x8C, 0x01, 0x10]);
    let mut tracker = Tracker::with_line(SensorType::Dht22, SimulatedLine::new(exchange(frame), true));
    let reading = tracker.read().expect("the line sends a valid frame");
    assert_eq!(reading.result, Measurement { temperature: 272, humidity: 652 });
    assert!(reading.time.seconds > 1_600_000_000);
    assert!(reading.time.nanoseconds < 2_000_000_000);
}

#[test]
fn tracker_reads_the_sensor_it_was_given() {
    let frame = with_checksum([0x28, 0x00, 0x17, 0x00]);
    let mut tracker = Tracker::with_line(SensorType::Dht11, SimulatedLine::new(exchange(frame), true));
    let reading = tracker.read().expect("the line sends a valid frame");
    assert_eq!(reading.result, Measurement { temperature: 230, humidity: 400 });
}

#[test]
fn tracker_retries_ten_times() {
    let mut levels = Vec::new();
    for _ in 0..10 {
        levels.extend(exchange([1, 2, 3, 4, 0]));
    }
    levels.extend(exchange(with_checksum([0, 10, 0, 20])));
    let mut tracker = Tracker::with_line(SensorType::Dht22, SimulatedLine::new(levels.clone(), true));
    let reading = tracker.read().expect("the eleventh attempt succeeds");
    assert_eq!(reading.result, Measurement { temperature: 20, humidity: 10 });

    let mut failing = exchange([1, 2, 3, 4, 0]);
    failing.extend(levels);
    let mut tracker = Tracker::with_line(SensorType::Dht22, SimulatedLine::new(failing, true));
    assert!(matches!(tracker.read(), Err(DecodeError::CrcMismatch)));
    let reading = tracker.read().expect("the next reading starts with the valid frame");
    assert_eq!(reading.result, Measurement { temperature: 20, humidity: 10 });
}

#[test]
fn tracker_without_hardware_reports_the_board() {
    if let Err(error) = Tracker::new(SensorType::Dht22, 23) {
        assert!(matches!(error, DecodeError::GpioError(_)));
        assert!(!error.is_transient());
        assert!(!error.message().is_empty());
    }
}

#[test]
fn error_messages() {
    assert_eq!(DecodeError::Timeout.message(), "Timeout during communication");
    assert_eq!(DecodeError::CrcMismatch.message(), "CRC mismatch");
    assert!(DecodeError::Timeout.is_transient());
    assert!(DecodeError::CrcMismatch.is_transient());
}

#[test]
fn update_appends_to_the_history() {
    let mut history: Circular<Reading, 10> = Circular::new();
    let first = Reading {
        result: Measurement { temperature: 200, humidity: 500 },
        time: Timestamp { seconds: 1, nanoseconds: 0 },
    };
    let second = Reading {
        result: Measurement { temperature: 210, humidity: 510 },
        time: Timestamp { seconds: 3, nanoseconds: 5 },
    };
    history.update(first);
    assert_eq!(history.last(), &Some(first));
    history.update(second);
    assert_eq!(history.last(), &Some(second));
    let mut iter = history.iter();
    assert_eq!(iter.next(), Some(&second));
    assert_eq!(iter.next(), Some(&first));
    assert_eq!(iter.next(), None);
}
