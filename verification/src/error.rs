//! The ways a sensor read can fail.

use core::fmt::Debug;
use vstd::prelude::*;
use vstd::std_specs::convert::FromSpecImpl;

verus! {

/// Why a read of the sensor produced no reading.
///
/// Every failure ends the read it occurred in; none of them is ever replaced
/// by a made-up reading. `HE` is the error type of the pin the sensor is
/// wired to.
#[derive(Debug)]
pub enum DhtError<HE> {
    /// The sensor did not answer the start signal at all.
    NotPresent,
    /// The five bytes were received but do not add up: the first field is the
    /// checksum the sensor sent (the expected value), the second is the
    /// checksum calculated from the four payload bytes.
    ChecksumMismatch(u8, u8),
    /// The bytes add up but describe a humidity that cannot occur.
    InvalidData,
    /// The sensor answered the start signal and then stopped sending.
    Timeout,
    /// Driving or sampling the pin failed with this error.
    PinError(HE),
}

impl<HE: Clone> Clone for DhtError<HE> {
    /// A copy of the error. A pin error is copied by the `Clone` of the
    /// pin's error type, which decides what the copy holds.
    fn clone(&self) -> (copy: Self)
        ensures
            !(self is PinError) ==> copy == *self,
            self is PinError ==> copy is PinError,
    {
        match self {
            DhtError::NotPresent => DhtError::NotPresent,
            DhtError::ChecksumMismatch(expected, calculated) => DhtError::ChecksumMismatch(
                *expected,
                *calculated,
            ),
            DhtError::InvalidData => DhtError::InvalidData,
            DhtError::Timeout => DhtError::Timeout,
            DhtError::PinError(error) => DhtError::PinError(error.clone()),
        }
    }
}

impl<HE> From<HE> for DhtError<HE> {
    /// Wraps a pin error.
    fn from(error: HE) -> (wrapped: Self) {
        DhtError::PinError(error)
    }
}

impl<HE> FromSpecImpl<HE> for DhtError<HE> {
    open spec fn obeys_from_spec() -> bool {
        true
    }

    open spec fn from_spec(error: HE) -> Self {
        DhtError::PinError(error)
    }
}

/// The character that writes a decimal digit.
pub open spec fn digit_char(digit: nat) -> char {
    if digit == 0 {
        '0'
    } else if digit == 1 {
        '1'
    } else if digit == 2 {
        '2'
    } else if digit == 3 {
        '3'
    } else if digit == 4 {
        '4'
    } else if digit == 5 {
        '5'
    } else if digit == 6 {
        '6'
    } else if digit == 7 {
        '7'
    } else if digit == 8 {
        '8'
    } else {
        '9'
    }
}

/// A number written in decimal, without leading zeros.
pub open spec fn decimal_text(value: nat) -> Seq<char>
    decreases value,
{
    if value < 10 {
        seq![digit_char(value)]
    } else {
        decimal_text(value / 10).push(digit_char(value % 10))
    }
}

/// The text of one decimal digit.
fn digit_text(digit: u8) -> (text: &'static str)
    requires
        digit < 10,
    ensures
        text@ == seq![digit_char(digit as nat)],
{
    proof {
        reveal_strlit("0");
        reveal_strlit("1");
        reveal_strlit("2");
        reveal_strlit("3");
        reveal_strlit("4");
        reveal_strlit("5");
        reveal_strlit("6");
        reveal_strlit("7");
        reveal_strlit("8");
        reveal_strlit("9");
    }
    let text = if digit == 0 {
        "0"
    } else if digit == 1 {
        "1"
    } else if digit == 2 {
        "2"
    } else if digit == 3 {
        "3"
    } else if digit == 4 {
        "4"
    } else if digit == 5 {
        "5"
    } else if digit == 6 {
        "6"
    } else if digit == 7 {
        "7"
    } else if digit == 8 {
        "8"
    } else {
        "9"
    };
    assert(text@ =~= seq![digit_char(digit as nat)]);
    text
}

/// Writes a byte in decimal.
pub fn decimal(value: u8) -> (text: String)
    ensures
        text@ == decimal_text(value as nat),
{
    let mut text = String::new();
    if value >= 100 {
        text.append(digit_text(value / 100));
    }
    if value >= 10 {
        text.append(digit_text((value / 10) % 10));
    }
    text.append(digit_text(value % 10));
    proof {
        reveal_with_fuel(decimal_text, 3);
        assert(text@ =~= decimal_text(value as nat));
    }
    text
}

/// Formats a value with the `Debug` implementation of its type, as
/// `format!("{:?}", value)` does. What the text holds is up to that
/// implementation, so nothing is claimed of it.
#[verifier::external_body]
fn debug_text<T: Debug>(value: &T) -> (text: String) {
    format!("{:?}", value)
}

/// What the message of a pin error begins with; the rest is the pin's own
/// account of the error.
pub open spec fn pin_error_prefix() -> Seq<char> {
    "HAL pin error: "@
}

impl<HE> DhtError<HE> {
    /// Whether `text` is a message for this error. All errors but a pin
    /// error have exactly one message.
    pub open spec fn has_message(self, text: Seq<char>) -> bool {
        match self {
            DhtError::NotPresent => text == "DHT device not found"@,
            DhtError::ChecksumMismatch(expected, calculated) => text
                == "Data read was corrupt (expected checksum "@ + decimal_text(expected as nat)
                + ", calculated "@ + decimal_text(calculated as nat) + ")"@,
            DhtError::InvalidData => text == "Received data is out of range"@,
            DhtError::Timeout => text == "Timed out waiting for a read"@,
            DhtError::PinError(_) => text.len() >= pin_error_prefix().len() && text.take(
                pin_error_prefix().len() as int,
            ) == pin_error_prefix(),
        }
    }

    /// Describes the error in a sentence.
    pub fn message(&self) -> (text: String) where HE: Debug
        ensures
            self.has_message(text@),
    {
        match self {
            DhtError::NotPresent => String::from_str("DHT device not found"),
            DhtError::ChecksumMismatch(expected, calculated) => {
                let mut text = String::from_str("Data read was corrupt (expected checksum ");
                text.append(decimal(*expected).as_str());
                text.append(", calculated ");
                text.append(decimal(*calculated).as_str());
                text.append(")");
                text
            },
            DhtError::InvalidData => String::from_str("Received data is out of range"),
            DhtError::Timeout => String::from_str("Timed out waiting for a read"),
            DhtError::PinError(error) => {
                let mut text = String::from_str("HAL pin error: ");
                text.append(debug_text(error).as_str());
                assert(text@.take(pin_error_prefix().len() as int) =~= pin_error_prefix());
                text
            },
        }
    }
}

} // verus!
