//! Relay outputs: one GPIO pin each, switched on request.

use crate::board::{gpio_get, gpio_new};
use crate::humidity::line::LineEvent;
use vstd::prelude::*;

verus! {

/// `Pin::into_output`: turns a claimed pin into one that is driven.
#[verifier::external_body]
fn pin_into_output(pin: rppal::gpio::Pin) -> rppal::gpio::OutputPin {
    pin.into_output()
}

/// `OutputPin::set_high`: sets the output level of the pin to high.
#[verifier::external_body]
fn output_set_high(pin: &mut rppal::gpio::OutputPin) {
    pin.set_high()
}

/// `OutputPin::set_low`: sets the output level of the pin to low.
#[verifier::external_body]
fn output_set_low(pin: &mut rppal::gpio::OutputPin) {
    pin.set_low()
}

/// `OutputPin::is_set_high`: reads the level of the pin back. Nothing is
/// known of the level that comes back.
#[verifier::external_body]
fn output_is_set_high(pin: &rppal::gpio::OutputPin) -> bool {
    pin.is_set_high()
}

/// `<[T; N]>::try_from` on a vector: the contents of the vector as an array,
/// if the vector holds exactly `N` elements.
#[verifier::external_body]
fn vec_into_array<T, const N: usize>(items: Vec<T>) -> (array: Option<[T; N]>)
    ensures
        array is Some <==> items@.len() == N,
        array matches Some(array) ==> array@ == items@,
{
    items.try_into().ok()
}

/// A relay on a GPIO pin.
pub struct Relay {
    pin: rppal::gpio::OutputPin,
    log: Ghost<Seq<LineEvent>>,
    /// Whether the pin was high when it was last read back.
    pub on: bool,
}

impl Relay {
    /// Everything done to the relay's pin so far, oldest first.
    pub closed spec fn trace(&self) -> Seq<LineEvent> {
        self.log@
    }

    /// Whether the pin was high when it was last read back.
    pub closed spec fn is_on(&self) -> bool {
        self.on
    }

    /// Makes a relay of what the claim for its pin gave. A pin that was had
    /// becomes an output and its level is read: that is the relay. A refusal
    /// is handed on as it is.
    pub fn from_claim(claim: Result<rppal::gpio::Pin, rppal::gpio::Error>) -> (relay: Result<
        Self,
        rppal::gpio::Error,
    >)
        ensures
            claim is Ok <==> relay is Ok,
            relay matches Ok(relay) ==> relay.trace() == seq![LineEvent::Read(relay.is_on())],
            claim matches Err(refusal) ==> relay matches Err(error) && error == refusal,
    {
        match claim {
            Ok(pin) => {
                let pin = pin_into_output(pin);
                let on = output_is_set_high(&pin);
                let log = Ghost(Seq::empty().push(LineEvent::Read(on)));
                Ok(Relay { pin, log, on })
            },
            Err(refusal) => Err(refusal),
        }
    }

    /// Claims the pin with the given BCM number as an output and reads its
    /// level. Fails when the peripheral cannot be opened or refuses the pin.
    pub fn new(gpio_pin: u8) -> (relay: Result<Self, rppal::gpio::Error>)
        ensures
            relay matches Ok(relay) ==> relay.trace() == seq![LineEvent::Read(relay.is_on())],
    {
        let gpio = gpio_new()?;
        Relay::from_claim(gpio_get(&gpio, gpio_pin))
    }

    /// Drives the pin high and reads its level back.
    pub fn on(&mut self)
        ensures
            final(self).trace() == old(self).trace() + seq![
                LineEvent::High,
                LineEvent::Read(final(self).is_on()),
            ],
    {
        output_set_high(&mut self.pin);
        self.on = output_is_set_high(&self.pin);
        self.log = Ghost(self.log@.push(LineEvent::High).push(LineEvent::Read(self.on)));
    }

    /// Drives the pin low and reads its level back.
    pub fn off(&mut self)
        ensures
            final(self).trace() == old(self).trace() + seq![
                LineEvent::Low,
                LineEvent::Read(final(self).is_on()),
            ],
    {
        output_set_low(&mut self.pin);
        self.on = output_is_set_high(&self.pin);
        self.log = Ghost(self.log@.push(LineEvent::Low).push(LineEvent::Read(self.on)));
    }

    /// Switches the relay off if it was on, and on if it was off.
    pub fn toggle(&mut self)
        ensures
            final(self).trace() == old(self).trace() + seq![
                if old(self).is_on() {
                    LineEvent::Low
                } else {
                    LineEvent::High
                },
                LineEvent::Read(final(self).is_on()),
            ],
    {
        if self.on {
            self.off();
        } else {
            self.on();
        }
    }
}

/// `N` relays, addressed by their position.
pub struct RelayBoard<const N: usize> {
    relays: [Relay; N],
}

impl<const N: usize> RelayBoard<N> {
    /// The relay at position `index`.
    pub closed spec fn relay(&self, index: int) -> Relay {
        self.relays@[index]
    }

    /// Claims the pins with the given BCM numbers, in their order, as
    /// relays. Fails with the first refusal of the peripheral; a board
    /// without relays asks the peripheral for nothing and cannot fail.
    pub fn new(pin_nums: [u8; N]) -> (board: Result<Self, rppal::gpio::Error>)
        ensures
            N == 0 ==> board is Ok,
            board matches Ok(board) ==> forall|i: int|
                0 <= i < N ==> (#[trigger] board.relay(i)).trace() == seq![
                    LineEvent::Read(board.relay(i).is_on()),
                ],
    {
        let mut relays: Vec<Relay> = Vec::new();
        let mut claimed: usize = 0;
        while claimed < N
            invariant
                claimed <= N,
                relays@.len() == claimed,
                forall|i: int|
                    0 <= i < claimed ==> (#[trigger] relays@[i]).trace() == seq![
                        LineEvent::Read(relays@[i].is_on()),
                    ],
            decreases N - claimed,
        {
            let relay = Relay::new(pin_nums[claimed])?;
            relays.push(relay);
            claimed += 1;
        }

        match vec_into_array(relays) {
            Some(relays) => Ok(RelayBoard { relays }),
            None => unreached(),
        }
    }

    /// The relay at `index`, if there is one. What is done to it is done to
    /// the relay on the board; the other relays stay as they are.
    pub fn get_mut(&mut self, index: usize) -> (relay: Option<&mut Relay>)
        ensures
            relay is Some <==> index < N,
            relay matches Some(relay) ==> {
                &&& *relay == old(self).relay(index as int)
                &&& final(self).relay(index as int) == *final(relay)
                &&& forall|i: int|
                    0 <= i < N && i != index ==> final(self).relay(i) == old(self).relay(i)
            },
            relay is None ==> *final(self) == *old(self),
    {
        if index < N {
            Some(&mut self.relays[index])
        } else {
            None
        }
    }
}

} // verus!
