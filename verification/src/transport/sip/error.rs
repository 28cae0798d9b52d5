//! Typed error types for the SIP transport layer.
//!
//! Sibling enums cover the phases of the SIP path:
//!
//! - [`SipInitError`]: startup, that is pjsua create/init/start, transports,
//!   codecs, account registration. One-shot failures that take down the
//!   process.
//! - [`SipResponseError`]: building or sending an individual SIP response
//!   (401/302/200 etc.) from inside a callback. Per-call, recoverable in the
//!   sense that the caller logs and continues.
//! - [`SipAudioError`]: runtime audio plumbing, hooking players into a call's
//!   conference port. Surfaces when media isn't ready yet, when a port name has
//!   an interior NUL, or when pjsua refuses a connect.
//! - [`SipCallError`]: outbound-call setup.
//!
//! [`SipError`] is the umbrella for callers that want to handle any of them
//! uniformly.

use crate::text::decimal;
use crate::text::decimal_text;
use crate::text::join;
use crate::text::signed_decimal;
use crate::text::signed_decimal_text;
use crate::transport::sip::ffi::types::CallId;
use vstd::prelude::*;

verus! {

/// A text that is to become a C string holds a NUL byte.
#[derive(Debug, Clone, Copy, PartialEq, Eq, Structural)]
pub struct InteriorNul {
    /// The place of the first NUL byte
    pub position: usize,
}

impl InteriorNul {
    /// The error as text.
    pub open spec fn text(self) -> Seq<char> {
        "nul byte found in provided data at position: "@ + decimal(self.position as nat)
    }

    /// The error as text.
    pub fn to_string(&self) -> (text: String)
        ensures
            text@ == self.text(),
    {
        join(
            "nul byte found in provided data at position: ",
            decimal_text(self.position as u64).as_str(),
        )
    }
}

/// A text with a pj status code behind it, in the form of the messages below.
pub open spec fn with_status(before: Seq<char>, status: i32) -> Seq<char> {
    before + " failed (status "@ + signed_decimal(status as int) + ")"@
}

fn status_text(before: &str, status: i32) -> (text: String)
    ensures
        text@ == with_status(before@, status),
{
    join(before, " failed (status ").concat(signed_decimal_text(status).as_str()).concat(")")
}

/// Umbrella error for everything the SIP transport layer can return.
#[derive(Debug)]
pub enum SipError {
    Init(SipInitError),
    Response(SipResponseError),
    Audio(SipAudioError),
    Call(SipCallError),
}

impl SipError {
    /// The error as text: that of the error inside.
    pub open spec fn text(self) -> Seq<char> {
        match self {
            SipError::Init(error) => error.text(),
            SipError::Response(error) => error.text(),
            SipError::Audio(error) => error.text(),
            SipError::Call(error) => error.text(),
        }
    }

    /// The error as text: that of the error inside.
    pub fn to_string(&self) -> (text: String)
        ensures
            text@ == self.text(),
    {
        match self {
            SipError::Init(error) => error.to_string(),
            SipError::Response(error) => error.to_string(),
            SipError::Audio(error) => error.to_string(),
            SipError::Call(error) => error.to_string(),
        }
    }
}

/// Errors raised by outbound-call setup.
#[derive(Debug)]
pub enum SipCallError {
    /// A URI / display-name string couldn't be converted to a C string because
    /// of an interior NUL byte.
    InvalidString { field: &'static str, source: InteriorNul },
    /// `pjsua_call_make_call` returned non-success.
    MakeCall(i32),
}

impl SipCallError {
    /// The error as text.
    pub open spec fn text(self) -> Seq<char> {
        match self {
            SipCallError::InvalidString { field, source } => "invalid "@ + field@
                + " for outbound call: "@ + source.text(),
            SipCallError::MakeCall(status) => with_status("pjsua_call_make_call"@, status),
        }
    }

    /// The error as text.
    pub fn to_string(&self) -> (text: String)
        ensures
            text@ == self.text(),
    {
        match self {
            SipCallError::InvalidString { field, source } => join("invalid ", field).concat(
                " for outbound call: ",
            ).concat(source.to_string().as_str()),
            SipCallError::MakeCall(status) => status_text("pjsua_call_make_call", *status),
        }
    }
}

/// Errors raised while pjsua and its transports are set up or driven.
#[derive(Debug)]
pub enum SipInitError {
    /// A pjsua API returned a non-success status code. `operation` names the
    /// specific call (`"pjsua_create"`, `"pjsua_init"`, `"pjsua_start"`,
    /// `"pjsua_acc_add"`, `"pjsua_set_null_snd_dev"`, `"pjsua_handle_events"`,
    /// etc.).
    Pjsua { operation: &'static str, status: i32 },
    /// `pjsua_transport_create` failed for `kind` ("UDP", "TCP", or "TLS").
    TransportCreate { kind: &'static str, status: i32 },
    /// A configuration string (host name, URI, etc.) couldn't be converted
    /// to a C string because of an interior NUL byte.
    InvalidString { field: &'static str, source: InteriorNul },
    /// A path to be passed into pjsua wasn't valid UTF-8.
    NonUtf8Path { field: &'static str },
}

impl SipInitError {
    /// The error as text.
    pub open spec fn text(self) -> Seq<char> {
        match self {
            SipInitError::Pjsua { operation, status } => with_status(
                "pjsua "@ + operation@,
                status,
            ),
            SipInitError::TransportCreate { kind, status } => with_status(
                "transport create ("@ + kind@ + ")"@,
                status,
            ),
            SipInitError::InvalidString { field, source } => "invalid "@ + field@
                + " string for FFI: "@ + source.text(),
            SipInitError::NonUtf8Path { field } => field@ + " path is not valid UTF-8"@,
        }
    }

    /// The error as text.
    pub fn to_string(&self) -> (text: String)
        ensures
            text@ == self.text(),
    {
        match self {
            SipInitError::Pjsua { operation, status } => status_text(
                join("pjsua ", operation).as_str(),
                *status,
            ),
            SipInitError::TransportCreate { kind, status } => status_text(
                join("transport create (", kind).concat(")").as_str(),
                *status,
            ),
            SipInitError::InvalidString { field, source } => join("invalid ", field).concat(
                " string for FFI: ",
            ).concat(source.to_string().as_str()),
            SipInitError::NonUtf8Path { field } => join(field, " path is not valid UTF-8"),
        }
    }
}

/// Errors raised by audio-port plumbing.
#[derive(Debug)]
pub enum SipAudioError {
    /// The call doesn't have a conference port yet: media negotiation is
    /// still in progress, or the call has just ended. Caller can retry or
    /// drop the audio.
    NoConfPort { call_id: CallId },
    /// A port name (used to identify the player in pjsua's mixer) contains
    /// an interior NUL.
    InvalidPortName(InteriorNul),
    /// `pjsua_conf_add_port`, `pjsua_conf_connect`, etc. returned non-success.
    Pjsua { operation: &'static str, status: i32 },
    /// Frame size / port count mismatch between the audio source and the
    /// pjsua port.
    FrameMismatch(String),
    /// Failure setting up a streaming player (file read, decoder, etc.), by
    /// its text.
    Streaming(String),
}

impl SipAudioError {
    /// The error as text.
    pub open spec fn text(self) -> Seq<char> {
        match self {
            SipAudioError::NoConfPort { call_id } => "no conference port for call "@
                + signed_decimal(call_id.0 as int) + " (media not ready yet)"@,
            SipAudioError::InvalidPortName(source) => "invalid port name: "@ + source.text(),
            SipAudioError::Pjsua { operation, status } => with_status(
                "pjsua conf "@ + operation@,
                status,
            ),
            SipAudioError::FrameMismatch(reason) => "frame mismatch: "@ + reason@,
            SipAudioError::Streaming(error) => error@,
        }
    }

    /// The error as text.
    pub fn to_string(&self) -> (text: String)
        ensures
            text@ == self.text(),
    {
        match self {
            SipAudioError::NoConfPort { call_id } => join(
                "no conference port for call ",
                signed_decimal_text(call_id.0).as_str(),
            ).concat(" (media not ready yet)"),
            SipAudioError::InvalidPortName(source) => join(
                "invalid port name: ",
                source.to_string().as_str(),
            ),
            SipAudioError::Pjsua { operation, status } => status_text(
                join("pjsua conf ", operation).as_str(),
                *status,
            ),
            SipAudioError::FrameMismatch(reason) => join("frame mismatch: ", reason.as_str()),
            SipAudioError::Streaming(error) => error.clone(),
        }
    }
}

/// Errors that can occur while building or sending a SIP response.
///
/// Surfaces failures from the pjsua/pjsip surface: C string conversion, pool
/// allocation, header creation, and the final stateless / transactional send.
/// Variants stay coarse-grained because the typical caller is a pjsip callback
/// that can only log and continue.
#[derive(Debug)]
pub enum SipResponseError {
    /// A runtime string contained an interior NUL byte and could not be
    /// converted to a C string.
    CStringNul(InteriorNul),
    /// `pjsua_pool_create` returned null: out of memory or pjsua not
    /// initialised.
    PoolAlloc,
    /// `pjsip_generic_string_hdr_create` returned null.
    HeaderCreate,
    /// `pjsua_get_pjsip_endpt` returned null: pjsua not initialised.
    EndpointNull,
    /// `pjsip_endpt_respond_stateless` returned a non-success pj status code.
    StatelessSend(i32),
    /// `pjsip_tsx_create_uas2` returned a non-success pj status code.
    TsxCreate(i32),
    /// `pjsip_endpt_create_response` returned a non-success pj status code.
    ResponseBuild(i32),
    /// `pjsua_call_answer` returned a non-success pj status code.
    CallAnswer(i32),
}

impl SipResponseError {
    /// The error as text.
    pub open spec fn text(self) -> Seq<char> {
        match self {
            SipResponseError::CStringNul(_) => "CString conversion failed (interior NUL)"@,
            SipResponseError::PoolAlloc => "pjsua pool allocation failed"@,
            SipResponseError::HeaderCreate => "pjsip header creation failed"@,
            SipResponseError::EndpointNull =>
                "pjsip endpoint is null (pjsua not initialised)"@,
            SipResponseError::StatelessSend(status) => with_status(
                "pjsip stateless send"@,
                status,
            ),
            SipResponseError::TsxCreate(status) => with_status(
                "pjsip UAS transaction creation"@,
                status,
            ),
            SipResponseError::ResponseBuild(status) => with_status(
                "pjsip response build"@,
                status,
            ),
            SipResponseError::CallAnswer(status) => with_status("pjsua_call_answer"@, status),
        }
    }

    /// The error as text.
    pub fn to_string(&self) -> (text: String)
        ensures
            text@ == self.text(),
    {
        match self {
            SipResponseError::CStringNul(_) =>
                "CString conversion failed (interior NUL)".to_string(),
            SipResponseError::PoolAlloc => "pjsua pool allocation failed".to_string(),
            SipResponseError::HeaderCreate => "pjsip header creation failed".to_string(),
            SipResponseError::EndpointNull =>
                "pjsip endpoint is null (pjsua not initialised)".to_string(),
            SipResponseError::StatelessSend(status) => status_text(
                "pjsip stateless send",
                *status,
            ),
            SipResponseError::TsxCreate(status) => status_text(
                "pjsip UAS transaction creation",
                *status,
            ),
            SipResponseError::ResponseBuild(status) => status_text(
                "pjsip response build",
                *status,
            ),
            SipResponseError::CallAnswer(status) => status_text("pjsua_call_answer", *status),
        }
    }
}

impl From<SipInitError> for SipError {
    fn from(error: SipInitError) -> (wrapped: Self) {
        SipError::Init(error)
    }
}

impl vstd::std_specs::convert::FromSpecImpl<SipInitError> for SipError {
    open spec fn obeys_from_spec() -> bool {
        true
    }

    open spec fn from_spec(error: SipInitError) -> Self {
        SipError::Init(error)
    }
}

impl From<SipResponseError> for SipError {
    fn from(error: SipResponseError) -> (wrapped: Self) {
        SipError::Response(error)
    }
}

impl vstd::std_specs::convert::FromSpecImpl<SipResponseError> for SipError {
    open spec fn obeys_from_spec() -> bool {
        true
    }

    open spec fn from_spec(error: SipResponseError) -> Self {
        SipError::Response(error)
    }
}

impl From<SipAudioError> for SipError {
    fn from(error: SipAudioError) -> (wrapped: Self) {
        SipError::Audio(error)
    }
}

impl vstd::std_specs::convert::FromSpecImpl<SipAudioError> for SipError {
    open spec fn obeys_from_spec() -> bool {
        true
    }

    open spec fn from_spec(error: SipAudioError) -> Self {
        SipError::Audio(error)
    }
}

impl From<SipCallError> for SipError {
    fn from(error: SipCallError) -> (wrapped: Self) {
        SipError::Call(error)
    }
}

impl vstd::std_specs::convert::FromSpecImpl<SipCallError> for SipError {
    open spec fn obeys_from_spec() -> bool {
        true
    }

    open spec fn from_spec(error: SipCallError) -> Self {
        SipError::Call(error)
    }
}

impl From<InteriorNul> for SipAudioError {
    fn from(error: InteriorNul) -> (wrapped: Self) {
        SipAudioError::InvalidPortName(error)
    }
}

impl vstd::std_specs::convert::FromSpecImpl<InteriorNul> for SipAudioError {
    open spec fn obeys_from_spec() -> bool {
        true
    }

    open spec fn from_spec(error: InteriorNul) -> Self {
        SipAudioError::InvalidPortName(error)
    }
}

impl From<InteriorNul> for SipResponseError {
    fn from(error: InteriorNul) -> (wrapped: Self) {
        SipResponseError::CStringNul(error)
    }
}

impl vstd::std_specs::convert::FromSpecImpl<InteriorNul> for SipResponseError {
    open spec fn obeys_from_spec() -> bool {
        true
    }

    open spec fn from_spec(error: InteriorNul) -> Self {
        SipResponseError::CStringNul(error)
    }
}

/// Every error with a status code ends with that code, whatever it is.
pub proof fn law_sip_errors_name_their_status(status: i32, name: &'static str)
    ensures
        ({
            let end = " failed (status "@ + signed_decimal(status as int) + ")"@;
            &&& SipCallError::MakeCall(status).text() == "pjsua_call_make_call"@ + end
            &&& (SipInitError::Pjsua { operation: name, status }).text() == "pjsua "@ + name@ + end
            &&& (SipInitError::TransportCreate { kind: name, status }).text()
                == "transport create ("@ + name@ + ")"@ + end
            &&& (SipAudioError::Pjsua { operation: name, status }).text() == "pjsua conf "@ + name@
                + end
            &&& SipResponseError::StatelessSend(status).text() == "pjsip stateless send"@ + end
            &&& SipResponseError::TsxCreate(status).text() == "pjsip UAS transaction creation"@
                + end
            &&& SipResponseError::ResponseBuild(status).text() == "pjsip response build"@ + end
            &&& SipResponseError::CallAnswer(status).text() == "pjsua_call_answer"@ + end
        }),
{
    let end = " failed (status "@ + signed_decimal(status as int) + ")"@;
    assert(with_status("pjsua_call_make_call"@, status) =~= "pjsua_call_make_call"@ + end);
    assert(with_status("pjsua "@ + name@, status) =~= "pjsua "@ + name@ + end);
    assert(with_status("transport create ("@ + name@ + ")"@, status) =~= "transport create ("@
        + name@ + ")"@ + end);
    assert(with_status("pjsua conf "@ + name@, status) =~= "pjsua conf "@ + name@ + end);
    assert(with_status("pjsip stateless send"@, status) =~= "pjsip stateless send"@ + end);
    assert(with_status("pjsip UAS transaction creation"@, status)
        =~= "pjsip UAS transaction creation"@ + end);
    assert(with_status("pjsip response build"@, status) =~= "pjsip response build"@ + end);
    assert(with_status("pjsua_call_answer"@, status) =~= "pjsua_call_answer"@ + end);
}

/// Every other error hands on its place, field, call or reason, and an umbrella
/// error reads as the error inside.
pub proof fn law_sip_errors_hand_their_payload_on(
    nul: InteriorNul,
    field: &'static str,
    call_id: CallId,
    reason: String,
    init: SipInitError,
    response: SipResponseError,
    audio: SipAudioError,
    call: SipCallError,
)
    ensures
        nul.text() == "nul byte found in provided data at position: "@ + decimal(
            nul.position as nat,
        ),
        (SipCallError::InvalidString { field, source: nul }).text() == "invalid "@ + field@
            + " for outbound call: "@ + nul.text(),
        (SipInitError::InvalidString { field, source: nul }).text() == "invalid "@ + field@
            + " string for FFI: "@ + nul.text(),
        (SipInitError::NonUtf8Path { field }).text() == field@ + " path is not valid UTF-8"@,
        (SipAudioError::NoConfPort { call_id }).text() == "no conference port for call "@
            + signed_decimal(call_id.0 as int) + " (media not ready yet)"@,
        SipAudioError::InvalidPortName(nul).text() == "invalid port name: "@ + nul.text(),
        SipAudioError::FrameMismatch(reason).text() == "frame mismatch: "@ + reason@,
        SipAudioError::Streaming(reason).text() == reason@,
        SipResponseError::CStringNul(nul).text() == "CString conversion failed (interior NUL)"@,
        SipError::Init(init).text() == init.text(),
        SipError::Response(response).text() == response.text(),
        SipError::Audio(audio).text() == audio.text(),
        SipError::Call(call).text() == call.text(),
{
}

} // verus!
