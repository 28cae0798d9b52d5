//! Audio parsing utilities
//!
//! Audio file parsing for the WAV and FLAC formats, and arithmetic on sample
//! buffers.

use crate::text::join;
use vstd::prelude::*;
use vstd::string::to_string_from_display_ensures;

pub mod flac;
pub mod simd;
pub mod wav;

verus! {

/// An error of the FLAC decoder. Opaque here.
#[verifier::external_type_specification]
#[verifier::external_body]
pub struct ExClaxonError(claxon::Error);

/// Errors that can occur while parsing a WAV or FLAC file.
#[derive(Debug)]
pub enum AudioParseError {
    /// File header, chunk structure, or sample data was malformed for the
    /// format implied by the magic bytes. Carries a short human-readable
    /// reason.
    Malformed(String),
    /// Audio format is recognised but not supported by this parser (e.g.
    /// non-PCM WAV, or a FLAC stream with an exotic bit depth).
    Unsupported(String),
    /// Underlying claxon FLAC decoder error.
    Flac(claxon::Error),
}

impl AudioParseError {
    /// Whether this is the malformed-data error with the given reason.
    pub open spec fn is_malformed(self, reason: Seq<char>) -> bool {
        self matches AudioParseError::Malformed(r) && r@ == reason
    }

    /// Whether this is the unsupported-audio error with the given reason.
    pub open spec fn is_unsupported(self, reason: Seq<char>) -> bool {
        self matches AudioParseError::Unsupported(r) && r@ == reason
    }

    /// Whether the error reads so as text. How a decoder error reads is left to
    /// the decoder.
    pub open spec fn reads_as(self, text: Seq<char>) -> bool {
        match self {
            AudioParseError::Malformed(reason) => text == "malformed audio data: "@ + reason@,
            AudioParseError::Unsupported(reason) => text == "unsupported audio: "@ + reason@,
            AudioParseError::Flac(error) => exists|shown: String|
                #[trigger] to_string_from_display_ensures(&error, shown) && text
                    == "FLAC decode error: "@ + shown@,
        }
    }

    /// The error as text for a log or a user.
    pub fn to_string(&self) -> (text: String)
        ensures
            self.reads_as(text@),
    {
        match self {
            AudioParseError::Malformed(reason) => join("malformed audio data: ", reason.as_str()),
            AudioParseError::Unsupported(reason) => join("unsupported audio: ", reason.as_str()),
            AudioParseError::Flac(error) => {
                let shown = error.to_string();
                join("FLAC decode error: ", shown.as_str())
            },
        }
    }
}

impl From<claxon::Error> for AudioParseError {
    fn from(error: claxon::Error) -> (wrapped: Self) {
        AudioParseError::Flac(error)
    }
}

impl vstd::std_specs::convert::FromSpecImpl<claxon::Error> for AudioParseError {
    open spec fn obeys_from_spec() -> bool {
        true
    }

    open spec fn from_spec(error: claxon::Error) -> Self {
        AudioParseError::Flac(error)
    }
}

/// An error of malformed or unsupported data hands its reason on, and a decoder
/// error what the decoder says of it.
pub proof fn law_audio_errors_hand_their_reason_on(
    reason: String,
    error: claxon::Error,
    text: Seq<char>,
)
    ensures
        AudioParseError::Malformed(reason).reads_as(text) <==> text == "malformed audio data: "@
            + reason@,
        AudioParseError::Unsupported(reason).reads_as(text) <==> text == "unsupported audio: "@
            + reason@,
        AudioParseError::Flac(error).reads_as(text) ==> exists|shown: String| #[trigger]
            to_string_from_display_ensures(&error, shown) && text == "FLAC decode error: "@
                + shown@,
        AudioParseError::Malformed(reason).is_malformed(text) <==> reason@ == text,
        !AudioParseError::Malformed(reason).is_unsupported(text),
        AudioParseError::Unsupported(reason).is_unsupported(text) <==> reason@ == text,
        !AudioParseError::Unsupported(reason).is_malformed(text),
{
}

} // verus!
