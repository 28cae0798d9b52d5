//! Top-level error type for the crate.
//!
//! [`BridgeError`] aggregates every subsystem error so callers (main binaries,
//! adapter crates) can use a single `Result` type.

use crate::audio::AudioParseError;
use crate::fax::FaxError;
use crate::text::join;
use crate::transport::sip::error::SipError;
use vstd::prelude::*;

verus! {

/// Umbrella error for the entire bridge crate. The errors of the subsystems
/// that live outside of it come in as their text.
#[derive(Debug)]
pub enum BridgeError {
    Config(String),
    Sip(SipError),
    Discord(String),
    Routing(String),
    Fax(FaxError),
    Sound(String),
    AudioParse(AudioParseError),
    /// Generic I/O at the top level (file ops in main, etc.) that aren't tied
    /// to a particular subsystem.
    Io { context: String, source: String },
}

impl BridgeError {
    /// Whether the error reads so as text. A subsystem error reads as it does
    /// by itself.
    pub open spec fn reads_as(self, text: Seq<char>) -> bool {
        match self {
            BridgeError::Config(error) => text == error@,
            BridgeError::Sip(error) => text == error.text(),
            BridgeError::Discord(error) => text == error@,
            BridgeError::Routing(error) => text == error@,
            BridgeError::Fax(error) => text == error.text(),
            BridgeError::Sound(error) => text == error@,
            BridgeError::AudioParse(error) => error.reads_as(text),
            BridgeError::Io { context, source } => text == "I/O ("@ + context@ + "): "@ + source@,
        }
    }

    /// The error as text for a log or a user.
    pub fn to_string(&self) -> (text: String)
        ensures
            self.reads_as(text@),
    {
        match self {
            BridgeError::Config(error) => error.clone(),
            BridgeError::Sip(error) => error.to_string(),
            BridgeError::Discord(error) => error.clone(),
            BridgeError::Routing(error) => error.clone(),
            BridgeError::Fax(error) => error.to_string(),
            BridgeError::Sound(error) => error.clone(),
            BridgeError::AudioParse(error) => error.to_string(),
            BridgeError::Io { context, source } => join("I/O (", context.as_str()).concat(
                "): ",
            ).concat(source.as_str()),
        }
    }
}

impl From<SipError> for BridgeError {
    fn from(error: SipError) -> (wrapped: Self) {
        BridgeError::Sip(error)
    }
}

impl vstd::std_specs::convert::FromSpecImpl<SipError> for BridgeError {
    open spec fn obeys_from_spec() -> bool {
        true
    }

    open spec fn from_spec(error: SipError) -> Self {
        BridgeError::Sip(error)
    }
}

impl From<FaxError> for BridgeError {
    fn from(error: FaxError) -> (wrapped: Self) {
        BridgeError::Fax(error)
    }
}

impl vstd::std_specs::convert::FromSpecImpl<FaxError> for BridgeError {
    open spec fn obeys_from_spec() -> bool {
        true
    }

    open spec fn from_spec(error: FaxError) -> Self {
        BridgeError::Fax(error)
    }
}

impl From<AudioParseError> for BridgeError {
    fn from(error: AudioParseError) -> (wrapped: Self) {
        BridgeError::AudioParse(error)
    }
}

impl vstd::std_specs::convert::FromSpecImpl<AudioParseError> for BridgeError {
    open spec fn obeys_from_spec() -> bool {
        true
    }

    open spec fn from_spec(error: AudioParseError) -> Self {
        BridgeError::AudioParse(error)
    }
}

/// An error of a subsystem reads as it does by itself.
pub proof fn law_bridge_errors_read_as_what_they_wrap(
    sip: SipError,
    fax: FaxError,
    audio: AudioParseError,
    other: String,
    context: String,
    text: Seq<char>,
)
    ensures
        BridgeError::Sip(sip).reads_as(text) <==> text == sip.text(),
        BridgeError::Fax(fax).reads_as(text) <==> text == fax.text(),
        BridgeError::AudioParse(audio).reads_as(text) <==> audio.reads_as(text),
        BridgeError::Config(other).reads_as(text) <==> text == other@,
        BridgeError::Discord(other).reads_as(text) <==> text == other@,
        BridgeError::Routing(other).reads_as(text) <==> text == other@,
        BridgeError::Sound(other).reads_as(text) <==> text == other@,
        (BridgeError::Io { context, source: other }).reads_as(text) <==> text == "I/O ("@ + context@
            + "): "@ + other@,
{
}

} // verus!
