//! What can go wrong while talking to a sensor.

use vstd::prelude::*;

verus! {

/// A failed measurement or a failed acquisition of the data line.
#[derive(Debug)]
pub enum DecodeError {
    /// The line did not change level within the poll limit.
    Timeout,
    /// The checksum byte disagrees with the four data bytes.
    CrcMismatch,
    /// The GPIO peripheral refused the pin.
    GpioError(rppal::gpio::Error),
}

/// `ToString::to_string` on a GPIO error: the text its `Display` impl writes.
#[verifier::external_body]
fn gpio_error_text(error: &rppal::gpio::Error) -> String {
    error.to_string()
}

impl DecodeError {
    /// Timeouts and checksum mismatches come from one bad exchange and may
    /// not repeat; a refused pin does not heal by itself.
    pub open spec fn transient(self) -> bool {
        self is Timeout || self is CrcMismatch
    }

    /// Whether another attempt may succeed.
    pub fn is_transient(&self) -> (transient: bool)
        ensures
            transient == self.transient(),
    {
        match self {
            DecodeError::Timeout => true,
            DecodeError::CrcMismatch => true,
            DecodeError::GpioError(_) => false,
        }
    }

    /// The message for a reader: fixed for timeouts and checksum mismatches,
    /// the GPIO peripheral's own words otherwise.
    pub fn message(&self) -> (text: String)
        ensures
            self is Timeout ==> text@ == "Timeout during communication"@,
            self is CrcMismatch ==> text@ == "CRC mismatch"@,
    {
        match self {
            DecodeError::Timeout => String::from_str("Timeout during communication"),
            DecodeError::CrcMismatch => String::from_str("CRC mismatch"),
            DecodeError::GpioError(inner) => gpio_error_text(inner),
        }
    }
}

} // verus!
