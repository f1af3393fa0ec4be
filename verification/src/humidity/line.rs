//! The single data line a sensor hangs on, and the record of what was done
//! to it.

use super::error::DecodeError;
use crate::board::{gpio_get, gpio_new};
use vstd::prelude::*;

verus! {

/// Direction of the data line.
#[derive(Clone, Copy, Debug, PartialEq, Eq, Structural)]
pub enum LineMode {
    Input,
    Output,
}

/// One operation on the data line.
#[derive(Clone, Copy, Debug, PartialEq, Eq, Structural)]
pub enum LineEvent {
    /// The line was switched to the given direction.
    Mode(LineMode),
    /// The line was driven high.
    High,
    /// The line was driven low.
    Low,
    /// The line was sampled and was high (`true`) or low (`false`).
    Read(bool),
    /// A busy wait of that many microseconds.
    WaitUs(u16),
    /// A busy wait of that many milliseconds.
    WaitMs(u16),
}

/// What a decoder needs from its surroundings: direction and level of one
/// line, and busy waits. Every operation appends itself to the trace, so a
/// contract can say what was done to the line and in which order.
pub trait PulseTimer {
    /// Every operation performed so far, oldest first.
    spec fn trace(&self) -> Seq<LineEvent>;

    /// Switches the direction of the line.
    fn set_mode(&mut self, mode: LineMode)
        ensures
            final(self).trace() == old(self).trace().push(LineEvent::Mode(mode)),
    ;

    /// Drives the line high.
    fn set_high(&mut self)
        ensures
            final(self).trace() == old(self).trace().push(LineEvent::High),
    ;

    /// Drives the line low.
    fn set_low(&mut self)
        ensures
            final(self).trace() == old(self).trace().push(LineEvent::Low),
    ;

    /// Samples the line: `true` when it is high.
    fn is_high(&mut self) -> (level: bool)
        ensures
            final(self).trace() == old(self).trace().push(LineEvent::Read(level)),
    ;

    /// Waits for `us` microseconds.
    fn delay_us(&mut self, us: u16)
        ensures
            final(self).trace() == old(self).trace().push(LineEvent::WaitUs(us)),
    ;

    /// Waits for `ms` milliseconds.
    fn delay_ms(&mut self, ms: u16)
        ensures
            final(self).trace() == old(self).trace().push(LineEvent::WaitMs(ms)),
    ;
}

/// `Pin::into_io`: turns a claimed pin into one that can be read and
/// driven, in the given direction.
#[verifier::external_body]
fn pin_into_io(pin: rppal::gpio::Pin, mode: LineMode) -> rppal::gpio::IoPin {
    let mode = match mode {
        LineMode::Input => rppal::gpio::Mode::Input,
        LineMode::Output => rppal::gpio::Mode::Output,
    };
    pin.into_io(mode)
}

/// `IoPin::set_mode`: switches the direction of the pin.
#[verifier::external_body]
fn pin_set_mode(pin: &mut rppal::gpio::IoPin, mode: LineMode) {
    let mode = match mode {
        LineMode::Input => rppal::gpio::Mode::Input,
        LineMode::Output => rppal::gpio::Mode::Output,
    };
    pin.set_mode(mode)
}

/// `IoPin::set_high`: sets the output level of the pin to high.
#[verifier::external_body]
fn pin_set_high(pin: &mut rppal::gpio::IoPin) {
    pin.set_high()
}

/// `IoPin::set_low`: sets the output level of the pin to low.
#[verifier::external_body]
fn pin_set_low(pin: &mut rppal::gpio::IoPin) {
    pin.set_low()
}

/// `IoPin::is_high`: reads the level of the pin. Nothing is known of the
/// level that comes back.
#[verifier::external_body]
fn pin_is_high(pin: &rppal::gpio::IoPin) -> bool {
    pin.is_high()
}

/// `DelayUs::<u16>::delay_us` on the board's `Delay`: sleeps for that many
/// microseconds.
#[verifier::external_body]
fn hal_delay_us(us: u16) {
    let mut delay = rppal::hal::Delay;
    embedded_hal::blocking::delay::DelayUs::<u16>::delay_us(&mut delay, us)
}

/// `DelayMs::<u16>::delay_ms` on the board's `Delay`: sleeps for that many
/// milliseconds.
#[verifier::external_body]
fn hal_delay_ms(ms: u16) {
    let mut delay = rppal::hal::Delay;
    embedded_hal::blocking::delay::DelayMs::<u16>::delay_ms(&mut delay, ms)
}

/// Hands the value through and wraps a refusal of the GPIO peripheral.
pub fn lift<T>(outcome: Result<T, rppal::gpio::Error>) -> (lifted: Result<T, DecodeError>)
    ensures
        match outcome {
            Ok(value) => lifted == Ok::<T, DecodeError>(value),
            Err(error) => lifted == Err::<T, DecodeError>(DecodeError::GpioError(error)),
        },
{
    match outcome {
        Ok(value) => Ok(value),
        Err(error) => Err(DecodeError::GpioError(error)),
    }
}

/// A GPIO pin of the board together with the board's busy-wait delay.
pub struct GpioLine {
    pin: rppal::gpio::IoPin,
    log: Ghost<Seq<LineEvent>>,
}

impl GpioLine {
    /// Claims the pin with the given BCM number as an input. Fails with
    /// [`DecodeError::GpioError`] when the peripheral cannot be opened or
    /// refuses the pin.
    pub fn open(gpio_pin: u8) -> (line: Result<GpioLine, DecodeError>)
        ensures
            match line {
                Ok(line) => line.trace() == Seq::<LineEvent>::empty(),
                Err(error) => error is GpioError,
            },
    {
        let gpio = lift(gpio_new())?;
        let pin = lift(gpio_get(&gpio, gpio_pin))?;
        Ok(GpioLine { pin: pin_into_io(pin, LineMode::Input), log: Ghost(Seq::empty()) })
    }
}

impl PulseTimer for GpioLine {
    closed spec fn trace(&self) -> Seq<LineEvent> {
        self.log@
    }

    fn set_mode(&mut self, mode: LineMode) {
        pin_set_mode(&mut self.pin, mode);
        self.log = Ghost(self.log@.push(LineEvent::Mode(mode)));
    }

    fn set_high(&mut self) {
        pin_set_high(&mut self.pin);
        self.log = Ghost(self.log@.push(LineEvent::High));
    }

    fn set_low(&mut self) {
        pin_set_low(&mut self.pin);
        self.log = Ghost(self.log@.push(LineEvent::Low));
    }

    fn is_high(&mut self) -> (level: bool) {
        let level = pin_is_high(&self.pin);
        self.log = Ghost(self.log@.push(LineEvent::Read(level)));
        level
    }

    fn delay_us(&mut self, us: u16) {
        hal_delay_us(us);
        self.log = Ghost(self.log@.push(LineEvent::WaitUs(us)));
    }

    fn delay_ms(&mut self, ms: u16) {
        hal_delay_ms(ms);
        self.log = Ghost(self.log@.push(LineEvent::WaitMs(ms)));
    }
}

/// A line without hardware behind it: every sample takes the next level of
/// a script, and the idle level once the script is used up. It keeps what
/// was done to it, so a caller can look at the exchange afterwards.
pub struct SimulatedLine {
    levels: Vec<bool>,
    idle: bool,
    taken: usize,
    events: Vec<LineEvent>,
}

impl SimulatedLine {
    /// The levels that the line shows, one per sample.
    pub closed spec fn script(&self) -> Seq<bool> {
        self.levels@
    }

    /// The level that the line shows after the script.
    pub closed spec fn idle(&self) -> bool {
        self.idle
    }

    /// How many levels of the script were sampled.
    pub closed spec fn taken(&self) -> int {
        self.taken as int
    }

    /// The level that the next sample will show.
    pub open spec fn upcoming(&self) -> bool {
        if 0 <= self.taken() < self.script().len() {
            self.script()[self.taken()]
        } else {
            self.idle()
        }
    }

    /// A line that shows `levels`, then `idle` forever.
    pub fn new(levels: Vec<bool>, idle: bool) -> (line: Self)
        ensures
            line.script() == levels@,
            line.idle() == idle,
            line.taken() == 0,
            line.trace() == Seq::<LineEvent>::empty(),
    {
        SimulatedLine { levels, idle, taken: 0, events: Vec::new() }
    }

    /// Everything that was done to the line, oldest first.
    pub fn events(&self) -> (events: &Vec<LineEvent>)
        ensures
            events@ == self.trace(),
    {
        &self.events
    }

    /// How many levels of the script were sampled.
    pub fn samples_taken(&self) -> (taken: usize)
        ensures
            taken == self.taken(),
    {
        self.taken
    }
}

impl PulseTimer for SimulatedLine {
    closed spec fn trace(&self) -> Seq<LineEvent> {
        self.events@
    }

    fn set_mode(&mut self, mode: LineMode)
        ensures
            final(self).script() == old(self).script(),
            final(self).idle() == old(self).idle(),
            final(self).taken() == old(self).taken(),
    {
        self.events.push(LineEvent::Mode(mode));
    }

    fn set_high(&mut self)
        ensures
            final(self).script() == old(self).script(),
            final(self).idle() == old(self).idle(),
            final(self).taken() == old(self).taken(),
    {
        self.events.push(LineEvent::High);
    }

    fn set_low(&mut self)
        ensures
            final(self).script() == old(self).script(),
            final(self).idle() == old(self).idle(),
            final(self).taken() == old(self).taken(),
    {
        self.events.push(LineEvent::Low);
    }

    fn is_high(&mut self) -> (level: bool)
        ensures
            level == old(self).upcoming(),
            final(self).script() == old(self).script(),
            final(self).idle() == old(self).idle(),
            final(self).taken() == if old(self).taken() < old(self).script().len() {
                old(self).taken() + 1
            } else {
                old(self).taken()
            },
    {
        let level = if self.taken < self.levels.len() {
            let level = self.levels[self.taken];
            self.taken += 1;
            level
        } else {
            self.idle
        };
        self.events.push(LineEvent::Read(level));
        level
    }

    fn delay_us(&mut self, us: u16)
        ensures
            final(self).script() == old(self).script(),
            final(self).idle() == old(self).idle(),
            final(self).taken() == old(self).taken(),
    {
        self.events.push(LineEvent::WaitUs(us));
    }

    fn delay_ms(&mut self, ms: u16)
        ensures
            final(self).script() == old(self).script(),
            final(self).idle() == old(self).idle(),
            final(self).taken() == old(self).taken(),
    {
        self.events.push(LineEvent::WaitMs(ms));
    }
}

} // verus!
