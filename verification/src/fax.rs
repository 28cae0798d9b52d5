//! Incoming fax support: receives faxes over SIP and posts images to Discord.
//!
//! Two transport modes feed one session:
//! - **G.711 passthrough**: fax tones demodulated from audio samples
//! - **T.38 native**: IFP packets over UDPTL
//!
//! - `session`: the state machine of a single fax reception
//! - `discord_poster`: what is posted to Discord along the way
//! - `spandsp`: what the demodulator reports
//! - `tiff_decoder`: what is recovered of the received document

use crate::text::join;
use vstd::prelude::*;

pub mod discord_poster;
pub mod session;
pub mod spandsp;
pub mod tiff_decoder;

verus! {

/// Errors from the fax subsystem.
///
/// Variants are intentionally coarse: fax flows are end-to-end best-effort and
/// the `String` payloads carry enough context for triage. An upstream error
/// comes in as its text.
#[derive(Debug)]
pub enum FaxError {
    /// Discord REST / gateway error while posting or editing fax status.
    Discord(String),
    /// Token parsing failure when constructing the fax-posting client.
    InvalidToken(String),
    /// I/O error reading/writing TIFFs or working with paths.
    Io { context: String, source: String },
    /// Path couldn't be converted to UTF-8 for the SpanDSP / TIFF API.
    NonUtf8Path(String),
    /// SpanDSP returned an error from one of its setters or state-init
    /// functions.
    SpanDsp { operation: &'static str, detail: String },
    /// TIFF parsing / decoding failure. Carries a human-readable reason.
    Tiff(String),
    /// The received page data is beyond recovery. Carries a human-readable
    /// reason.
    CorruptPageData(String),
    /// A received fax produced no pages (decoder bail-out, session closed
    /// before any page was completed, etc.).
    NoPages,
}

impl FaxError {
    /// The error as text for a log or a user.
    pub open spec fn text(self) -> Seq<char> {
        match self {
            FaxError::Discord(error) => "Discord post failed: "@ + error@,
            FaxError::InvalidToken(error) => "invalid Discord bot token: "@ + error@,
            FaxError::Io { context, source } => "fax I/O ("@ + context@ + "): "@ + source@,
            FaxError::NonUtf8Path(path) => "path is not valid UTF-8: "@ + path@,
            FaxError::SpanDsp { operation, detail } => "SpanDSP ("@ + operation@ + "): "@
                + detail@,
            FaxError::Tiff(reason) => "TIFF decode: "@ + reason@,
            FaxError::CorruptPageData(reason) => "corrupt fax page data: "@ + reason@,
            FaxError::NoPages => "no pages in received fax"@,
        }
    }

    /// The error as text for a log or a user.
    pub fn to_string(&self) -> (text: String)
        ensures
            text@ == self.text(),
    {
        match self {
            FaxError::Discord(error) => join("Discord post failed: ", error.as_str()),
            FaxError::InvalidToken(error) => join("invalid Discord bot token: ", error.as_str()),
            FaxError::Io { context, source } => join("fax I/O (", context.as_str()).concat(
                "): ",
            ).concat(source.as_str()),
            FaxError::NonUtf8Path(path) => join("path is not valid UTF-8: ", path.as_str()),
            FaxError::SpanDsp { operation, detail } => join("SpanDSP (", operation).concat(
                "): ",
            ).concat(detail.as_str()),
            FaxError::Tiff(reason) => join("TIFF decode: ", reason.as_str()),
            FaxError::CorruptPageData(reason) => join("corrupt fax page data: ", reason.as_str()),
            FaxError::NoPages => "no pages in received fax".to_string(),
        }
    }
}

/// Every error says what went wrong and hands its whole payload on.
pub proof fn law_fax_errors_hand_their_payload_on(
    payload: String,
    context: String,
    operation: &'static str,
)
    ensures
        FaxError::Discord(payload).text() == "Discord post failed: "@ + payload@,
        FaxError::InvalidToken(payload).text() == "invalid Discord bot token: "@ + payload@,
        (FaxError::Io { context, source: payload }).text() == "fax I/O ("@ + context@ + "): "@
            + payload@,
        FaxError::NonUtf8Path(payload).text() == "path is not valid UTF-8: "@ + payload@,
        (FaxError::SpanDsp { operation, detail: payload }).text() == "SpanDSP ("@ + operation@
            + "): "@ + payload@,
        FaxError::Tiff(payload).text() == "TIFF decode: "@ + payload@,
        FaxError::CorruptPageData(payload).text() == "corrupt fax page data: "@ + payload@,
        FaxError::NoPages.text() == "no pages in received fax"@,
{
}

} // verus!
