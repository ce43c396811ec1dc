//! The error taxonomy of the feeder controller.

use vstd::prelude::*;

use crate::gcode::Word;
use crate::value::Value;

verus! {

/// Everything that can go wrong between a received byte and a finished
/// feeder motion.
#[derive(Clone, Copy, Debug, PartialEq, Eq, Structural)]
pub enum Error {
    /// The transport link went away.
    Disconnected,
    /// A line did not fit the framing buffer.
    InputBufferOverflow,
    /// The transport failed to move bytes.
    Io,
    /// A servo target angle lies outside the accepted range.
    AngleOutOfRange,
    /// A PWM limit lies outside what the servo accepts.
    PwmValueOutOfRange,
    /// The command word of a line is not one this controller knows.
    UnsupportedCommand(Word),
    /// An index-bearing command came without an index argument.
    NoIndex,
    /// The given feeder index does not name a feeder.
    InvalidIndex(usize),
    /// An argument letter is not one the handler recognizes.
    InvalidArgument(char),
    /// A motion was requested while the feeder is disabled.
    FeederDisabled,
    /// A fixed-point computation left the representable range.
    FixedPointError,
    /// A feeder answered a request with a response of the wrong shape.
    InvalidFeederCommandResponse,
    /// The feedback input reports that the previous part is still in place.
    FeederNotReady,
    /// The configuration store rejected a write.
    ConfigSetError,
    /// The configuration store rejected a read.
    ConfigGetError,
    /// A feed length is not a whole multiple of two millimetres.
    InvalidFeedLength(Value),
}

/// The one-line text of an error, as it appears after `error: ` in a
/// reply.
pub open spec fn spec_message(e: Error) -> Seq<char> {
    match e {
        Error::Disconnected => "disconnected"@,
        Error::InputBufferOverflow => "input buffer overflow"@,
        Error::Io => "IO error"@,
        Error::AngleOutOfRange => "angle out of range"@,
        Error::PwmValueOutOfRange => "pwm value out of range"@,
        Error::UnsupportedCommand(word) => "unsupported command "@ + seq![word.letter]
            + crate::text::spec_fmt_value(word.value.raw as int),
        Error::NoIndex => "no index specified"@,
        Error::InvalidIndex(index) => "no feeder "@ + crate::text::dec_str(index as int),
        Error::InvalidArgument(letter) => "invalid argument type "@ + seq![letter],
        Error::FeederDisabled => "feeder disabled"@,
        Error::FixedPointError => "fixed point error"@,
        Error::InvalidFeederCommandResponse => "invalid feeder command respons"@,
        Error::FeederNotReady => "feeder not ready"@,
        Error::ConfigSetError => "can't set config"@,
        Error::ConfigGetError => "can't get config"@,
        Error::InvalidFeedLength(len) => "invald feed length "@ + crate::text::spec_fmt_value(
            len.raw as int,
        ),
    }
}

impl Error {
    /// The one-line text of this error.
    pub fn message(&self) -> (r: String)
        ensures
            r@ == spec_message(*self),
    {
        match self {
            Error::Disconnected => String::from_str("disconnected"),
            Error::InputBufferOverflow => String::from_str("input buffer overflow"),
            Error::Io => String::from_str("IO error"),
            Error::AngleOutOfRange => String::from_str("angle out of range"),
            Error::PwmValueOutOfRange => String::from_str("pwm value out of range"),
            Error::UnsupportedCommand(word) => {
                let mut s = String::from_str("unsupported command ");
                crate::text::push_char(&mut s, word.letter);
                let value_text = crate::text::fmt_value(word.value);
                s.append(value_text.as_str());
                proof {
                    assert(s@ =~= spec_message(*self));
                }
                s
            },
            Error::NoIndex => String::from_str("no index specified"),
            Error::InvalidIndex(index) => {
                let mut s = String::from_str("no feeder ");
                let index_text = crate::text::fmt_usize(*index);
                s.append(index_text.as_str());
                s
            },
            Error::InvalidArgument(letter) => {
                let mut s = String::from_str("invalid argument type ");
                crate::text::push_char(&mut s, *letter);
                proof {
                    assert(s@ =~= spec_message(*self));
                }
                s
            },
            Error::FeederDisabled => String::from_str("feeder disabled"),
            Error::FixedPointError => String::from_str("fixed point error"),
            Error::InvalidFeederCommandResponse => String::from_str(
                "invalid feeder command respons",
            ),
            Error::FeederNotReady => String::from_str("feeder not ready"),
            Error::ConfigSetError => String::from_str("can't set config"),
            Error::ConfigGetError => String::from_str("can't get config"),
            Error::InvalidFeedLength(len) => {
                let mut s = String::from_str("invald feed length ");
                let value_text = crate::text::fmt_value(*len);
                s.append(value_text.as_str());
                s
            },
        }
    }
}

} // verus!
