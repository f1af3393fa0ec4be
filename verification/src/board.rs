//! The GPIO peripheral: its types, whose values are carried around and
//! handed back to it, and the calls that claim a pin.

use vstd::prelude::*;

verus! {

/// The handle to the GPIO peripheral.
#[verifier::external_type_specification]
#[verifier::external_body]
pub struct ExGpio(rppal::gpio::Gpio);

/// A claimed pin that has no direction yet.
#[verifier::external_type_specification]
#[verifier::external_body]
pub struct ExPin(rppal::gpio::Pin);

/// A claimed pin that can be read and driven.
#[verifier::external_type_specification]
#[verifier::external_body]
pub struct ExIoPin(rppal::gpio::IoPin);

/// A claimed pin that is driven.
#[verifier::external_type_specification]
#[verifier::external_body]
pub struct ExOutputPin(rppal::gpio::OutputPin);

/// The reason for which the peripheral refused a request.
#[verifier::external_type_specification]
#[verifier::external_body]
pub struct ExGpioError(rppal::gpio::Error);

/// `Gpio::new`: opens the GPIO peripheral. Whether it succeeds depends on
/// the machine.
#[verifier::external_body]
pub(crate) fn gpio_new() -> Result<rppal::gpio::Gpio, rppal::gpio::Error> {
    rppal::gpio::Gpio::new()
}

/// `Gpio::get`: claims the pin with the given BCM number. Whether it
/// succeeds depends on the board and on who holds the pin.
#[verifier::external_body]
pub(crate) fn gpio_get(gpio: &rppal::gpio::Gpio, pin: u8) -> Result<
    rppal::gpio::Pin,
    rppal::gpio::Error,
> {
    gpio.get(pin)
}

} // verus!
