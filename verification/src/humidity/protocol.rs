//! The exchange on the data line: a start signal, the sensor's
//! acknowledgment and forty bits, each bit told by the lengths of a low and
//! a high pulse.
//!
//! The contracts speak of the line's trace. For each step of the exchange a
//! function on traces says how the step runs from a position and where it
//! ends, so what a step returns is a function of what the line showed, and
//! what a step does to the line is fixed by what it returns.

use super::error::DecodeError;
use super::line::{LineEvent, LineMode, PulseTimer};
use vstd::prelude::*;

verus! {

/// How long to wait for a pulse on the data line (in microseconds)
pub const TIMEOUT_US: u16 = 1_000;

/// How long the line is held high before the start signal (in milliseconds)
pub const START_HIGH_MS: u16 = 1;

/// How long the line is held low to ask for a reading (in milliseconds); the
/// sensors want at least 18.
pub const START_LOW_MS: u16 = 20;

/// How long the line is held high before it is released (in microseconds)
pub const RELEASE_US: u16 = 40;

/// How many bits a sensor sends: four data bytes and a checksum byte.
pub const FRAME_BITS: usize = 40;

/// How many bytes a sensor sends.
pub const FRAME_BYTES: usize = 5;

/// How a step of the exchange ran from some position of a trace.
pub ghost enum Run<V> {
    /// The step is complete: what it gave, and the position after its last
    /// event.
    Done { value: V, end: int },
    /// The trace does not continue the way this step proceeds.
    Stray,
}

/// How many times in a row, at most `cap`, the trace from `p` shows a sample
/// that is not `level` followed by a wait of one microsecond.
pub open spec fn misses(t: Seq<LineEvent>, p: int, level: bool, cap: nat) -> nat
    decreases cap,
{
    if cap > 0 && 0 <= p && p + 1 < t.len() && t[p] == LineEvent::Read(!level) && t[p + 1]
        == LineEvent::WaitUs(1) {
        1 + misses(t, p + 2, level, (cap - 1) as nat)
    } else {
        0
    }
}

/// A wait for `level` from `p`: samples one microsecond apart until one
/// shows `level`, which gives the number of samples before it; or
/// `TIMEOUT_US + 1` samples, none of which shows `level`, which is a timeout.
pub open spec fn pulse_at(t: Seq<LineEvent>, p: int, level: bool) -> Run<Result<u32, DecodeError>> {
    let k = misses(t, p, level, TIMEOUT_US as nat);
    let q = p + 2 * k;
    if 0 <= p && q < t.len() && t[q] == LineEvent::Read(level) {
        Run::Done { value: Ok(k as u32), end: q + 1 }
    } else if 0 <= p && q < t.len() && t[q] == LineEvent::Read(!level) && k == TIMEOUT_US {
        Run::Done { value: Err(DecodeError::Timeout), end: q + 1 }
    } else {
        Run::Stray
    }
}

/// `misses` counts exactly the leading pairs of a missed sample and a wait.
pub proof fn lemma_misses_count(t: Seq<LineEvent>, p: int, level: bool, cap: nat, k: nat)
    requires
        0 <= p,
        k <= cap,
        forall|j: int|
            0 <= j < k ==> p + 2 * j + 1 < t.len() && #[trigger] t[p + 2 * j] == LineEvent::Read(
                !level,
            ) && t[p + 2 * j + 1] == LineEvent::WaitUs(1),
        k == cap || !(p + 2 * k + 1 < t.len() && t[p + 2 * k] == LineEvent::Read(!level) && t[p
            + 2 * k + 1] == LineEvent::WaitUs(1)),
    ensures
        misses(t, p, level, cap) == k,
    decreases k,
{
    if k > 0 {
        assert(t[p + 2 * 0] == LineEvent::Read(!level));
        assert forall|j: int| 0 <= j < k - 1 implies p + 2 + 2 * j + 1 < t.len() && #[trigger] t[p
            + 2 + 2 * j] == LineEvent::Read(!level) && t[p + 2 + 2 * j + 1] == LineEvent::WaitUs(
            1,
        ) by {
            assert(t[p + 2 * (j + 1)] == LineEvent::Read(!level));
        }
        lemma_misses_count(t, p + 2, level, (cap - 1) as nat, (k - 1) as nat);
    }
}

/// The count of `misses` stands when the trace grows, once the sample that
/// ended the run is in the trace.
pub proof fn lemma_misses_extend(t: Seq<LineEvent>, u: Seq<LineEvent>, p: int, level: bool, cap: nat)
    requires
        t.is_prefix_of(u),
        0 <= p,
        misses(t, p, level, cap) == cap || (p + 2 * misses(t, p, level, cap) < t.len() && t[p + 2
            * misses(t, p, level, cap)] == LineEvent::Read(level)),
    ensures
        misses(u, p, level, cap) == misses(t, p, level, cap),
    decreases cap,
{
    if cap > 0 && p + 1 < t.len() && t[p] == LineEvent::Read(!level) && t[p + 1]
        == LineEvent::WaitUs(1) {
        lemma_misses_extend(t, u, p + 2, level, (cap - 1) as nat);
    }
}

/// A complete wait ends inside the trace.
pub proof fn lemma_pulse_bounds(t: Seq<LineEvent>, p: int, level: bool)
    requires
        pulse_at(t, p, level) is Done,
    ensures
        0 <= p < pulse_at(t, p, level)->end <= t.len(),
{
}

/// A complete wait reads the same in every longer trace.
pub proof fn lemma_pulse_extend(t: Seq<LineEvent>, u: Seq<LineEvent>, p: int, level: bool)
    requires
        t.is_prefix_of(u),
        pulse_at(t, p, level) is Done,
    ensures
        pulse_at(u, p, level) == pulse_at(t, p, level),
{
    lemma_misses_extend(t, u, p, level, TIMEOUT_US as nat);
}

/// Polls the line until it shows `level` and gives the number of polls that
/// did not. Fails with a timeout after `TIMEOUT_US + 1` such polls.
pub fn wait_for_pulse<L: PulseTimer>(line: &mut L, level: bool) -> (count: Result<u32, DecodeError>)
    ensures
        old(line).trace().is_prefix_of(final(line).trace()),
        pulse_at(final(line).trace(), old(line).trace().len() as int, level) == (Run::Done {
            value: count,
            end: final(line).trace().len() as int,
        }),
{
    let ghost start = line.trace().len() as int;
    let mut count: u16 = 0;
    loop
        invariant
            count <= TIMEOUT_US,
            start == old(line).trace().len(),
            old(line).trace().is_prefix_of(line.trace()),
            line.trace().len() == start + 2 * count,
            forall|j: int|
                0 <= j < count ==> #[trigger] line.trace()[start + 2 * j] == LineEvent::Read(
                    !level,
                ) && line.trace()[start + 2 * j + 1] == LineEvent::WaitUs(1),
        decreases TIMEOUT_US - count,
    {
        let ghost before = line.trace();
        let seen = line.is_high();
        if seen == level {
            proof {
                let t = line.trace();
                assert forall|j: int| 0 <= j < count implies start + 2 * j + 1 < t.len()
                    && #[trigger] t[start + 2 * j] == LineEvent::Read(!level) && t[start + 2 * j
                    + 1] == LineEvent::WaitUs(1) by {
                    assert(before[start + 2 * j] == LineEvent::Read(!level));
                }
                lemma_misses_count(t, start, level, TIMEOUT_US as nat, count as nat);
            }
            return Ok(count as u32);
        }
        count += 1;
        if count > TIMEOUT_US {
            proof {
                let count = (count - 1) as u16;
                let t = line.trace();
                assert forall|j: int| 0 <= j < count implies start + 2 * j + 1 < t.len()
                    && #[trigger] t[start + 2 * j] == LineEvent::Read(!level) && t[start + 2 * j
                    + 1] == LineEvent::WaitUs(1) by {
                    assert(before[start + 2 * j] == LineEvent::Read(!level));
                }
                lemma_misses_count(t, start, level, TIMEOUT_US as nat, count as nat);
            }
            return Err(DecodeError::Timeout);
        }
        line.delay_us(1);
        proof {
            let t = line.trace();
            assert forall|j: int| 0 <= j < count implies #[trigger] t[start + 2 * j]
                == LineEvent::Read(!level) && t[start + 2 * j + 1] == LineEvent::WaitUs(1) by {
                if j < count - 1 {
                    assert(before[start + 2 * j] == LineEvent::Read(!level));
                }
            }
        }
    }
}

/// One bit slot from `p`: a wait for the line to go high, which measures
/// the low pulse, then a wait for it to go low, which measures the high
/// pulse. The bit is set when the high pulse is the longer one.
pub open spec fn bit_at(t: Seq<LineEvent>, p: int) -> Run<Result<bool, DecodeError>> {
    match pulse_at(t, p, true) {
        Run::Done { value: Ok(low), end } => match pulse_at(t, end, false) {
            Run::Done { value: Ok(high), end } => Run::Done { value: Ok(high > low), end },
            Run::Done { value: Err(error), end } => Run::Done { value: Err(error), end },
            Run::Stray => Run::Stray,
        },
        Run::Done { value: Err(error), end } => Run::Done { value: Err(error), end },
        Run::Stray => Run::Stray,
    }
}

/// A complete bit slot ends inside the trace.
pub proof fn lemma_bit_bounds(t: Seq<LineEvent>, p: int)
    requires
        bit_at(t, p) is Done,
    ensures
        0 <= p < bit_at(t, p)->end <= t.len(),
{
}

/// A complete bit slot reads the same in every longer trace.
pub proof fn lemma_bit_extend(t: Seq<LineEvent>, u: Seq<LineEvent>, p: int)
    requires
        t.is_prefix_of(u),
        bit_at(t, p) is Done,
    ensures
        bit_at(u, p) == bit_at(t, p),
{
    lemma_pulse_extend(t, u, p, true);
    if pulse_at(t, p, true)->value is Ok {
        lemma_pulse_extend(t, u, pulse_at(t, p, true)->end, false);
    }
}

/// A trace is a prefix of every trace that one of its extensions is a
/// prefix of.
pub proof fn lemma_prefix_chain(a: Seq<LineEvent>, b: Seq<LineEvent>, c: Seq<LineEvent>)
    requires
        a.is_prefix_of(b),
        b.is_prefix_of(c),
    ensures
        a.is_prefix_of(c),
{
    assert(a =~= c.subrange(0, a.len() as int));
}

/// Reads one bit: measures the low pulse and the high pulse that follows,
/// and compares them.
pub fn read_bit<L: PulseTimer>(line: &mut L) -> (bit: Result<bool, DecodeError>)
    ensures
        old(line).trace().is_prefix_of(final(line).trace()),
        bit_at(final(line).trace(), old(line).trace().len() as int) == (Run::Done {
            value: bit,
            end: final(line).trace().len() as int,
        }),
{
    let low = wait_for_pulse(line, true)?;
    let ghost middle = line.trace();
    let high = wait_for_pulse(line, false);
    proof {
        lemma_prefix_chain(old(line).trace(), middle, line.trace());
        lemma_pulse_extend(middle, line.trace(), old(line).trace().len() as int, true);
    }
    Ok(high? > low)
}

/// What the decoder does to the line to ask for a reading: it takes the
/// line, holds it high, holds it low, lets it rise and releases it.
pub open spec fn start_signal() -> Seq<LineEvent> {
    seq![
        LineEvent::Mode(LineMode::Output),
        LineEvent::High,
        LineEvent::WaitMs(START_HIGH_MS),
        LineEvent::Low,
        LineEvent::WaitMs(START_LOW_MS),
        LineEvent::High,
        LineEvent::WaitUs(RELEASE_US),
        LineEvent::Mode(LineMode::Input),
    ]
}

/// The handshake from `p`: the start signal, then one bit slot in which the
/// sensor acknowledges. The value of that slot is dropped.
pub open spec fn handshake_at(t: Seq<LineEvent>, p: int) -> Run<Result<(), DecodeError>> {
    if 0 <= p && p + 8 <= t.len() && t.subrange(p, p + 8) == start_signal() {
        match bit_at(t, p + 8) {
            Run::Done { value: Ok(_), end } => Run::Done { value: Ok(()), end },
            Run::Done { value: Err(error), end } => Run::Done { value: Err(error), end },
            Run::Stray => Run::Stray,
        }
    } else {
        Run::Stray
    }
}

/// A complete handshake reads the same in every longer trace.
pub proof fn lemma_handshake_extend(t: Seq<LineEvent>, u: Seq<LineEvent>, p: int)
    requires
        t.is_prefix_of(u),
        handshake_at(t, p) is Done,
    ensures
        handshake_at(u, p) == handshake_at(t, p),
{
    assert(u.subrange(p, p + 8) =~= t.subrange(p, p + 8));
    lemma_bit_extend(t, u, p + 8);
}

/// Asks the sensor for a reading and consumes its acknowledgment.
pub fn perform_handshake<L: PulseTimer>(line: &mut L) -> (done: Result<(), DecodeError>)
    ensures
        old(line).trace().is_prefix_of(final(line).trace()),
        handshake_at(final(line).trace(), old(line).trace().len() as int) == (Run::Done {
            value: done,
            end: final(line).trace().len() as int,
        }),
{
    line.set_mode(LineMode::Output);
    // Start from a clean high level.
    line.set_high();
    line.delay_ms(START_HIGH_MS);

    // Pull line low for at least 18ms to send a start command.
    line.set_low();
    line.delay_ms(START_LOW_MS);

    // Let the line rise again and hand it to the sensor.
    line.set_high();
    line.delay_us(RELEASE_US);
    line.set_mode(LineMode::Input);

    let ghost signalled = line.trace();
    proof {
        let p = old(line).trace().len() as int;
        assert(signalled.subrange(p, p + 8) =~= start_signal());
        assert(old(line).trace() =~= signalled.subrange(0, p));
    }

    // As a response, the device pulls the line low for 80us and then high for 80us.
    let acknowledged = read_bit(line);
    proof {
        let p = old(line).trace().len() as int;
        lemma_prefix_chain(old(line).trace(), signalled, line.trace());
        assert(line.trace().subrange(p, p + 8) =~= signalled.subrange(p, p + 8));
    }
    acknowledged?;
    Ok(())
}

/// The first `n` bit slots from `p`, in the order in which they were read.
/// After a slot that timed out no further slot is read.
pub open spec fn bits_at(t: Seq<LineEvent>, p: int, n: nat) -> Run<Result<Seq<bool>, DecodeError>>
    decreases n,
{
    if n == 0 {
        Run::Done { value: Ok(Seq::empty()), end: p }
    } else {
        match bits_at(t, p, (n - 1) as nat) {
            Run::Done { value: Ok(bits), end } => match bit_at(t, end) {
                Run::Done { value: Ok(bit), end } => Run::Done { value: Ok(bits.push(bit)), end },
                Run::Done { value: Err(error), end } => Run::Done { value: Err(error), end },
                Run::Stray => Run::Stray,
            },
            Run::Done { value: Err(error), end } => Run::Done { value: Err(error), end },
            Run::Stray => Run::Stray,
        }
    }
}

/// Complete bit slots read the same in every longer trace.
pub proof fn lemma_bits_extend(t: Seq<LineEvent>, u: Seq<LineEvent>, p: int, n: nat)
    requires
        t.is_prefix_of(u),
        bits_at(t, p, n) is Done,
    ensures
        bits_at(u, p, n) == bits_at(t, p, n),
    decreases n,
{
    if n > 0 {
        lemma_bits_extend(t, u, p, (n - 1) as nat);
        let before = bits_at(t, p, (n - 1) as nat);
        if before->value is Ok {
            lemma_bit_extend(t, u, before->end);
        }
    }
}

/// Once a slot has timed out, reading on changes nothing.
pub proof fn lemma_bits_settled(t: Seq<LineEvent>, p: int, m: nat, n: nat)
    requires
        m <= n,
        bits_at(t, p, m) is Done,
        bits_at(t, p, m)->value is Err,
    ensures
        bits_at(t, p, n) == bits_at(t, p, m),
    decreases n,
{
    if m < n {
        lemma_bits_settled(t, p, m, (n - 1) as nat);
    }
}

/// The number that a sequence of bits spells, most significant bit first.
pub open spec fn bits_value(bits: Seq<bool>) -> nat
    decreases bits.len(),
{
    if bits.len() == 0 {
        0
    } else {
        2 * bits_value(bits.drop_last()) + if bits.last() {
            1nat
        } else {
            0nat
        }
    }
}

/// The bits of byte `j`, as far as `bits` holds them.
pub open spec fn byte_bits(bits: Seq<bool>, j: int) -> Seq<bool> {
    let from = if 8 * j < bits.len() {
        8 * j
    } else {
        bits.len() as int
    };
    let to = if 8 * j + 8 < bits.len() {
        8 * j + 8
    } else {
        bits.len() as int
    };
    bits.subrange(from, to)
}

/// The bytes that forty bits spell: byte-major, most significant bit first.
pub open spec fn pack(bits: Seq<bool>) -> Seq<u8> {
    Seq::new(FRAME_BYTES as nat, |j: int| bits_value(byte_bits(bits, j)) as u8)
}

/// `2` to the power `n`.
pub open spec fn two_to(n: nat) -> nat
    decreases n,
{
    if n == 0 {
        1
    } else {
        2 * two_to((n - 1) as nat)
    }
}

/// `n` bits spell a number below `2` to the power `n`.
pub proof fn lemma_bits_value_bound(bits: Seq<bool>)
    ensures
        bits_value(bits) < two_to(bits.len()),
    decreases bits.len(),
{
    if bits.len() > 0 {
        lemma_bits_value_bound(bits.drop_last());
    }
}

/// One exchange from `p`: the handshake, then forty bit slots, packed into
/// five bytes.
pub open spec fn frame_at(t: Seq<LineEvent>, p: int) -> Run<Result<Seq<u8>, DecodeError>> {
    match handshake_at(t, p) {
        Run::Done { value: Ok(_), end } => match bits_at(t, end, FRAME_BITS as nat) {
            Run::Done { value: Ok(bits), end } => Run::Done { value: Ok(pack(bits)), end },
            Run::Done { value: Err(error), end } => Run::Done { value: Err(error), end },
            Run::Stray => Run::Stray,
        },
        Run::Done { value: Err(error), end } => Run::Done { value: Err(error), end },
        Run::Stray => Run::Stray,
    }
}

/// An exchange fails by a timeout or not at all.
pub proof fn lemma_frame_failure(t: Seq<LineEvent>, p: int)
    requires
        frame_at(t, p) is Done,
        frame_at(t, p)->value is Err,
    ensures
        frame_at(t, p)->value == Err::<Seq<u8>, DecodeError>(DecodeError::Timeout),
{
    let shaken = handshake_at(t, p);
    if shaken->value is Ok {
        lemma_bits_failure(t, shaken->end, FRAME_BITS as nat);
    }
}

/// Bit slots fail by a timeout or not at all.
proof fn lemma_bits_failure(t: Seq<LineEvent>, p: int, n: nat)
    requires
        bits_at(t, p, n) is Done,
        bits_at(t, p, n)->value is Err,
    ensures
        bits_at(t, p, n)->value == Err::<Seq<bool>, DecodeError>(DecodeError::Timeout),
    decreases n,
{
    if n > 0 {
        let before = bits_at(t, p, (n - 1) as nat);
        if before->value is Err {
            lemma_bits_failure(t, p, (n - 1) as nat);
        }
    }
}

/// A complete exchange reads the same in every longer trace.
pub proof fn lemma_frame_extend(t: Seq<LineEvent>, u: Seq<LineEvent>, p: int)
    requires
        t.is_prefix_of(u),
        frame_at(t, p) is Done,
    ensures
        frame_at(u, p) == frame_at(t, p),
{
    lemma_handshake_extend(t, u, p);
    if handshake_at(t, p)->value is Ok {
        lemma_bits_extend(t, u, handshake_at(t, p)->end, FRAME_BITS as nat);
    }
}

/// The bytes of a frame that was read, or the failure.
pub open spec fn frame_view(frame: Result<[u8; 5], DecodeError>) -> Result<Seq<u8>, DecodeError> {
    match frame {
        Ok(data) => Ok(data@),
        Err(error) => Err(error),
    }
}

/// One more bit changes the byte it belongs to and no other.
proof fn lemma_byte_bits_push(bits: Seq<bool>, bit: bool, j: int)
    requires
        0 <= j,
    ensures
        j != bits.len() / 8 ==> byte_bits(bits.push(bit), j) == byte_bits(bits, j),
        j == bits.len() / 8 ==> byte_bits(bits.push(bit), j) == byte_bits(bits, j).push(bit),
{
    if j == bits.len() / 8 {
        assert(byte_bits(bits.push(bit), j) =~= byte_bits(bits, j).push(bit));
    } else {
        assert(byte_bits(bits.push(bit), j) =~= byte_bits(bits, j));
    }
}

/// Shifting a byte below 128 to the left doubles it, and setting the lowest
/// bit of the result adds one.
proof fn lemma_shift_in(byte: u8)
    requires
        byte < 128,
    ensures
        byte << 1u8 == 2 * byte,
        (byte << 1u8) | 1u8 == 2 * byte + 1,
{
    assert(byte < 128 ==> byte << 1u8 == 2 * byte) by (bit_vector);
    assert(byte < 128 ==> (byte << 1u8) | 1u8 == 2 * byte + 1) by (bit_vector);
}

/// Performs the handshake and reads the forty bits that the sensor sends,
/// most significant bit of the first byte first. Stops at the first wait
/// that times out.
pub fn read_frame<L: PulseTimer>(line: &mut L) -> (frame: Result<[u8; 5], DecodeError>)
    ensures
        old(line).trace().is_prefix_of(final(line).trace()),
        frame_at(final(line).trace(), old(line).trace().len() as int) == (Run::Done {
            value: frame_view(frame),
            end: final(line).trace().len() as int,
        }),
{
    let mut data = [0u8;5];

    // Perform initial handshake
    perform_handshake(line)?;

    let ghost start = old(line).trace().len() as int;
    let ghost first = line.trace().len() as int;
    let ghost bits: Seq<bool> = Seq::empty();
    proof {
        assert forall|j: int| 0 <= j < 5 implies data@[j] == bits_value(byte_bits(bits, j)) by {
            assert(byte_bits(bits, j) =~= Seq::<bool>::empty());
        }
    }

    // Read bits
    let mut i: usize = 0;
    while i < FRAME_BITS
        invariant
            i <= FRAME_BITS,
            bits.len() == i,
            start == old(line).trace().len(),
            old(line).trace().is_prefix_of(line.trace()),
            handshake_at(line.trace(), start) == (Run::Done { value: Ok::<(), DecodeError>(()), end: first }),
            bits_at(line.trace(), first, i as nat) == (Run::Done {
                value: Ok::<Seq<bool>, DecodeError>(bits),
                end: line.trace().len() as int,
            }),
            forall|j: int| 0 <= j < 5 ==> data@[j] == bits_value(#[trigger] byte_bits(bits, j)),
        decreases FRAME_BITS - i,
    {
        let ghost before = line.trace();
        let read = read_bit(line);
        proof {
            lemma_prefix_chain(old(line).trace(), before, line.trace());
            lemma_handshake_extend(before, line.trace(), start);
            lemma_bits_extend(before, line.trace(), first, i as nat);
        }
        let bit = match read {
            Ok(bit) => bit,
            Err(error) => {
                proof {
                    lemma_bits_settled(line.trace(), first, (i + 1) as nat, FRAME_BITS as nat);
                }
                return Err(error);
            },
        };
        let k = i / 8;
        proof {
            let current = byte_bits(bits, k as int);
            assert(current.len() == i - 8 * k);
            lemma_bits_value_bound(current);
            reveal_with_fuel(two_to, 8);
            assert(bits_value(current) < 128) by {
                assert(two_to(current.len()) <= two_to(7)) by {
                    if current.len() == 0 {
                    } else if current.len() == 1 {
                    } else if current.len() == 2 {
                    } else if current.len() == 3 {
                    } else if current.len() == 4 {
                    } else if current.len() == 5 {
                    } else if current.len() == 6 {
                    } else {
                    }
                }
            }
            lemma_shift_in(data[k as int]);
            assert(current.push(bit).drop_last() =~= current);
            assert forall|j: int| 0 <= j < 5 implies (if j == k {
                2 * bits_value(current) + if bit {
                    1nat
                } else {
                    0nat
                }
            } else {
                data@[j] as nat
            }) == bits_value(#[trigger] byte_bits(bits.push(bit), j)) by {
                lemma_byte_bits_push(bits, bit, j);
            }
        }
        let shifted = data[k] << 1u8;
        data[k] = if bit {
            shifted | 1u8
        } else {
            shifted
        };
        proof {
            bits = bits.push(bit);
        }
        i += 1;
    }

    proof {
        assert(data@ =~= pack(bits));
    }
    Ok(data)
}

/// Complete bit slots end at or after the position at which they start.
pub proof fn lemma_bits_bounds(t: Seq<LineEvent>, p: int, n: nat)
    requires
        bits_at(t, p, n) is Done,
    ensures
        p <= bits_at(t, p, n)->end,
    decreases n,
{
    if n > 0 {
        lemma_bits_bounds(t, p, (n - 1) as nat);
    }
}

/// Between `from` and `to` the line is only sampled, one microsecond
/// apart: it is not driven and its direction is not changed.
pub open spec fn passive(t: Seq<LineEvent>, from: int, to: int) -> bool {
    forall|i: int| from <= i < to ==> #[trigger] t[i] is Read || t[i] == LineEvent::WaitUs(1)
}

/// Every pair that `misses` counts is a sample and a wait of one microsecond.
proof fn lemma_misses_passive(t: Seq<LineEvent>, p: int, level: bool, cap: nat)
    ensures
        passive(t, p, p + 2 * misses(t, p, level, cap)),
    decreases cap,
{
    if misses(t, p, level, cap) > 0 {
        lemma_misses_passive(t, p + 2, level, (cap - 1) as nat);
        assert forall|i: int| p <= i < p + 2 * misses(t, p, level, cap) implies #[trigger] t[i] is Read
            || t[i] == LineEvent::WaitUs(1) by {
            if i >= p + 2 {
                assert(passive(t, p + 2, p + 2 + 2 * misses(t, p + 2, level, (cap - 1) as nat)));
            }
        }
    }
}

/// A wait only samples the line.
pub proof fn lemma_pulse_passive(t: Seq<LineEvent>, p: int, level: bool)
    requires
        pulse_at(t, p, level) is Done,
    ensures
        passive(t, p, pulse_at(t, p, level)->end),
{
    lemma_misses_passive(t, p, level, TIMEOUT_US as nat);
}

/// A bit slot only samples the line.
pub proof fn lemma_bit_passive(t: Seq<LineEvent>, p: int)
    requires
        bit_at(t, p) is Done,
    ensures
        passive(t, p, bit_at(t, p)->end),
{
    lemma_pulse_passive(t, p, true);
    if pulse_at(t, p, true)->value is Ok {
        lemma_pulse_passive(t, pulse_at(t, p, true)->end, false);
    }
}

/// Bit slots only sample the line.
pub proof fn lemma_bits_passive(t: Seq<LineEvent>, p: int, n: nat)
    requires
        bits_at(t, p, n) is Done,
    ensures
        passive(t, p, bits_at(t, p, n)->end),
    decreases n,
{
    if n > 0 {
        lemma_bits_passive(t, p, (n - 1) as nat);
        let before = bits_at(t, p, (n - 1) as nat);
        if before->value is Ok {
            lemma_bit_passive(t, before->end);
        }
    }
}

/// An exchange drives the line in its start signal and nowhere else: from
/// the release to input mode on, whether the exchange succeeds or fails,
/// the line is only sampled.
pub proof fn law_line_released(t: Seq<LineEvent>, p: int)
    requires
        frame_at(t, p) is Done,
    ensures
        t.subrange(p, p + 8) == start_signal(),
        t[p + 7] == LineEvent::Mode(LineMode::Input),
        p + 8 < frame_at(t, p)->end <= t.len(),
        passive(t, p + 8, frame_at(t, p)->end),
{
    let shaken = handshake_at(t, p);
    assert(t[p + 7] == t.subrange(p, p + 8)[7]);
    lemma_bit_passive(t, p + 8);
    lemma_bit_bounds(t, p + 8);
    if shaken->value is Ok {
        lemma_bits_passive(t, shaken->end, FRAME_BITS as nat);
        lemma_bits_bounds(t, shaken->end, FRAME_BITS as nat);
        lemma_bits_end_inside(t, shaken->end, FRAME_BITS as nat);
    }
}

/// Complete bit slots that start inside the trace end inside it.
proof fn lemma_bits_end_inside(t: Seq<LineEvent>, p: int, n: nat)
    requires
        bits_at(t, p, n) is Done,
        p <= t.len(),
    ensures
        bits_at(t, p, n)->end <= t.len(),
    decreases n,
{
    if n > 0 {
        lemma_bits_end_inside(t, p, (n - 1) as nat);
    }
}

/// Every sample from `from` up to `to` shows `level`.
pub open spec fn steady(t: Seq<LineEvent>, from: int, to: int, level: bool) -> bool {
    forall|i: int| from <= i < to && #[trigger] t[i] is Read ==> t[i] == LineEvent::Read(level)
}

/// An exchange on a line that never changes its level times out: the
/// sensor's acknowledgment does not come.
pub proof fn law_steady_line_times_out(t: Seq<LineEvent>, p: int, level: bool)
    requires
        frame_at(t, p) is Done,
        steady(t, p, frame_at(t, p)->end, level),
    ensures
        frame_at(t, p)->value == Err::<Seq<u8>, DecodeError>(DecodeError::Timeout),
{
    let shaken = handshake_at(t, p);
    let first = pulse_at(t, p + 8, true);
    lemma_bit_bounds(t, p + 8);
    lemma_pulse_bounds(t, p + 8, true);
    if shaken->value is Ok {
        lemma_bits_bounds(t, shaken->end, FRAME_BITS as nat);
    }
    let k = misses(t, p + 8, true, TIMEOUT_US as nat);
    assert(t[p + 8 + 2 * k] is Read);
    if first->value is Ok {
        let second = pulse_at(t, first->end, false);
        lemma_pulse_bounds(t, first->end, false);
        let k2 = misses(t, first->end, false, TIMEOUT_US as nat);
        assert(t[first->end + 2 * k2] is Read);
    }
}

} // verus!
