//! The state machine of a single incoming fax reception.
//!
//! Lifecycle:
//! 1. Created when a fax call is answered
//! 2. Audio frames or IFP packets are fed to the demodulator, and its reports
//!    to the session
//! 3. The demodulator writes the document to a TIFF file
//! 4. When reception has ended, what can be recovered of the document is
//!    converted to images and posted to Discord
//! 5. On failure or timeout, an error message is posted to Discord

use crate::fax::discord_poster::numbered_pages;
use crate::fax::discord_poster::page_views;
use crate::fax::discord_poster::result_edit;
use crate::fax::discord_poster::token_is_valid;
use crate::fax::discord_poster::law_gallery_field_by_field;
use crate::fax::discord_poster::page_filename;
use crate::fax::discord_poster::result_description;
use crate::fax::discord_poster::DiscordPoster;
use crate::fax::discord_poster::EditView;
use crate::fax::discord_poster::FaxEmbed;
use crate::fax::discord_poster::FaxPageAttachment;
use crate::fax::discord_poster::FaxPostKind;
use crate::fax::discord_poster::FaxResultEdit;
use crate::fax::discord_poster::PageView;
use crate::fax::discord_poster::COLOR_FAILED;
use crate::fax::spandsp::FaxReceiver;
use crate::fax::spandsp::FaxRxStatus;
use crate::fax::spandsp::FaxT38Receiver;
use crate::fax::spandsp::ReceiverReading;
use crate::fax::spandsp::ReceiverReport;
use crate::fax::tiff_decoder::law_any_missing_part_counts;
use crate::fax::tiff_decoder::DecodedFax;
use crate::fax::tiff_decoder::DecodedFaxPage;
use crate::fax::FaxError;
use crate::services::snowflake::Snowflake;
use crate::text::hex16_text;
use crate::text::hex_digits;
use crate::text::hex_range;
use crate::text::join;
use crate::text::law_hex_digits_make_the_number;
use crate::text::law_hex_is_injective;
use crate::text::same_text;
use crate::transport::sip::CallId;
use vstd::prelude::*;

verus! {

/// Maximum time without observable T.30 progress. A completed page, negotiation
/// start, or advancing decoded row count refreshes this deadline.
pub const FAX_INACTIVITY_TIMEOUT_SECS: u64 = 300;

/// Absolute safety limit for a fax session, even while it continues to make
/// progress. This keeps pathological sessions bounded while allowing normal
/// multi-page faxes to run well beyond five minutes.
pub const FAX_SESSION_LIMIT_SECS: u64 = 1800;

/// The nanoseconds of a second.
pub const NANOS_PER_SEC: u128 = 1_000_000_000;

/// A moment on a clock that never goes back, in nanoseconds.
#[derive(Debug, Clone, Copy, PartialEq, Eq, Structural)]
pub struct FaxInstant {
    pub nanos: u128,
}

impl FaxInstant {
    /// The nanoseconds from `earlier` to this moment, 0 where it is not later.
    pub open spec fn nanos_since(self, earlier: FaxInstant) -> nat {
        if self.nanos >= earlier.nanos {
            (self.nanos - earlier.nanos) as nat
        } else {
            0
        }
    }

    /// The nanoseconds from `earlier` to this moment, 0 where it is not later.
    pub fn saturating_nanos_since(self, earlier: FaxInstant) -> (nanos: u128)
        ensures
            nanos == self.nanos_since(earlier),
    {
        if self.nanos >= earlier.nanos {
            self.nanos - earlier.nanos
        } else {
            0
        }
    }
}

/// Why a session has timed out.
#[derive(Debug, Clone, Copy, PartialEq, Eq, Structural)]
pub enum FaxTimeoutReason {
    Inactive,
    SessionLimit,
}

/// How far a reception has come.
#[derive(Debug, Clone, Copy, PartialEq, Eq, Structural)]
pub struct FaxProgress {
    pub negotiation_started: bool,
    pub pages_received: u32,
    pub image_length: u32,
}

impl FaxProgress {
    /// No progress at all.
    pub open spec fn nothing() -> FaxProgress {
        FaxProgress { negotiation_started: false, pages_received: 0, image_length: 0 }
    }

    /// Whether this is progress over `previous`: negotiation has started, a
    /// page was added, or the row count of the same page has changed.
    pub open spec fn advances(self, previous: FaxProgress) -> bool {
        ||| self.negotiation_started && !previous.negotiation_started
        ||| self.pages_received > previous.pages_received
        ||| self.pages_received == previous.pages_received && self.image_length
            != previous.image_length
    }

    /// Whether this is progress over `previous`.
    pub fn has_advanced_from(self, previous: Self) -> (advanced: bool)
        ensures
            advanced == self.advances(previous),
    {
        (self.negotiation_started && !previous.negotiation_started) || self.pages_received
            > previous.pages_received || (self.pages_received == previous.pages_received
            && self.image_length != previous.image_length)
    }
}

impl Default for FaxProgress {
    fn default() -> (progress: Self)
        ensures
            progress == FaxProgress::nothing(),
    {
        FaxProgress { negotiation_started: false, pages_received: 0, image_length: 0 }
    }
}

/// The timeout that has fired, if any; the session limit goes before inactivity.
pub open spec fn timeout_at(
    created_at: FaxInstant,
    last_progress_at: FaxInstant,
    now: FaxInstant,
) -> Option<FaxTimeoutReason> {
    if now.nanos_since(created_at) >= 1800 * 1_000_000_000 {
        Some(FaxTimeoutReason::SessionLimit)
    } else if now.nanos_since(last_progress_at) >= 300 * 1_000_000_000 {
        Some(FaxTimeoutReason::Inactive)
    } else {
        None
    }
}

/// The timeout that has fired, if any.
pub fn timeout_reason_at(
    created_at: FaxInstant,
    last_progress_at: FaxInstant,
    now: FaxInstant,
) -> (reason: Option<FaxTimeoutReason>)
    ensures
        reason == timeout_at(created_at, last_progress_at, now),
{
    if now.saturating_nanos_since(created_at) >= FAX_SESSION_LIMIT_SECS as u128 * NANOS_PER_SEC {
        Some(FaxTimeoutReason::SessionLimit)
    } else if now.saturating_nanos_since(last_progress_at) >= FAX_INACTIVITY_TIMEOUT_SECS as u128
        * NANOS_PER_SEC {
        Some(FaxTimeoutReason::Inactive)
    } else {
        None
    }
}

/// Whether the result to post is incomplete: the protocol gave a reason, or
/// something of the document is missing.
pub fn result_is_incomplete(protocol_reason: Option<&str>, decoded: &DecodedFax) -> (incomplete:
    bool)
    ensures
        incomplete == (protocol_reason is Some || decoded.lacks_content()),
{
    protocol_reason.is_some() || decoded.is_incomplete()
}

/// Why a fax is incomplete whose call has ended. A call that ends after at
/// least one page and the end-of-document signal has ended cleanly.
pub fn call_end_incomplete_reason(pages_received: u32, document_end_signaled: bool) -> (reason:
    Option<String>)
    ensures
        reason is None <==> pages_received > 0 && document_end_signaled,
        reason matches Some(text) ==> text@ == "Caller hung up before fax completed"@,
{
    if pages_received > 0 && document_end_signaled {
        None
    } else {
        Some("Caller hung up before fax completed".to_string())
    }
}

/// How the fax audio is being received
#[derive(Debug, Clone, Copy, PartialEq, Eq, Structural)]
pub enum FaxSource {
    /// G.711 audio passthrough
    G711Audio,
    /// T.38 UDPTL
    T38Udptl,
}

/// The active receiver: either audio-based or T.38 IFP-based.
#[derive(Debug)]
pub enum FaxReceiverKind {
    /// G.711 audio passthrough (demodulates fax tones from audio samples)
    Audio(FaxReceiver),
    /// T.38 UDPTL (receives IFP packets directly)
    T38(FaxT38Receiver),
}

impl FaxReceiverKind {
    /// The latest reading.
    pub open spec fn latest(self) -> ReceiverReading {
        match self {
            FaxReceiverKind::Audio(receiver) => receiver.reading,
            FaxReceiverKind::T38(receiver) => receiver.reading,
        }
    }

    /// The receiver with another reading.
    pub open spec fn with_reading(self, reading: ReceiverReading) -> FaxReceiverKind {
        match self {
            FaxReceiverKind::Audio(receiver) => FaxReceiverKind::Audio(
                FaxReceiver { reading, ..receiver },
            ),
            FaxReceiverKind::T38(receiver) => FaxReceiverKind::T38(
                FaxT38Receiver { reading, ..receiver },
            ),
        }
    }

    /// The latest reading.
    pub fn reading(&self) -> (reading: ReceiverReading)
        ensures
            reading == self.latest(),
    {
        match self {
            FaxReceiverKind::Audio(receiver) => receiver.reading,
            FaxReceiverKind::T38(receiver) => receiver.reading,
        }
    }

    /// Takes another reading.
    pub fn take_reading(&mut self, reading: ReceiverReading)
        ensures
            *final(self) == old(self).with_reading(reading),
    {
        match self {
            FaxReceiverKind::Audio(receiver) => {
                receiver.reading = reading;
            },
            FaxReceiverKind::T38(receiver) => {
                receiver.reading = reading;
            },
        }
    }
}

/// Current state of the fax reception
#[derive(Debug)]
pub enum FaxState {
    /// Answered, feeding audio to the demodulator, waiting for fax negotiation
    WaitingForData,
    /// Fax negotiation has started
    Receiving {
        /// Number of pages received so far
        pages_received: u32,
    },
    /// Reception ended; the current TIFF is awaiting best-effort conversion and posting
    Received,
    /// Fax posted to Discord successfully
    Complete,
    /// Useful fax data was posted, but the transfer or at least one page was incomplete
    Incomplete,
    /// Fax reception failed
    Failed(String),
}

impl FaxState {
    /// Whether a final result has been posted, or posting itself has failed.
    pub open spec fn is_posted(self) -> bool {
        self is Complete || self is Incomplete || self is Failed
    }

    /// Whether reception has ended.
    pub open spec fn has_ended(self) -> bool {
        self is Received || self.is_posted()
    }

    /// Whether reception has ended.
    pub fn is_finished(&self) -> (finished: bool)
        ensures
            finished == self.has_ended(),
    {
        matches!(self, FaxState::Received | FaxState::Complete | FaxState::Incomplete | FaxState::Failed(_))
    }

    /// The state that a report of the demodulator leads to.
    pub open spec fn after(self, status: FaxRxStatus, page_count: u32) -> FaxState {
        if self.is_posted() {
            self
        } else {
            match status {
                FaxRxStatus::InProgress => if self is Receiving {
                    FaxState::Receiving { pages_received: page_count }
                } else {
                    self
                },
                FaxRxStatus::Complete | FaxRxStatus::Error(_) => FaxState::Received,
            }
        }
    }

    /// Whether a report of the demodulator ends reception in this state.
    pub open spec fn ends_with(self, status: FaxRxStatus) -> bool {
        !self.is_posted() && !(status is InProgress)
    }

    /// The name of the state in a log.
    pub open spec fn label_text(self) -> Seq<char> {
        match self {
            FaxState::WaitingForData => "waiting_for_data"@,
            FaxState::Receiving { .. } => "receiving"@,
            FaxState::Received => "received"@,
            FaxState::Complete => "complete"@,
            FaxState::Incomplete => "incomplete"@,
            FaxState::Failed(_) => "failed"@,
        }
    }

    /// The name of the state in a log.
    pub fn label(&self) -> (label: &'static str)
        ensures
            label@ == self.label_text(),
    {
        match self {
            FaxState::WaitingForData => "waiting_for_data",
            FaxState::Receiving { .. } => "receiving",
            FaxState::Received => "received",
            FaxState::Complete => "complete",
            FaxState::Incomplete => "incomplete",
            FaxState::Failed(_) => "failed",
        }
    }
}

/// Apply a report of the demodulator to a state, returning whether reception
/// has ended and best-effort post-processing should run.
pub fn apply_rx_status(state: &mut FaxState, status: FaxRxStatus, page_count: u32) -> (ended: bool)
    ensures
        *final(state) == old(state).after(status, page_count),
        ended == old(state).ends_with(status),
{
    if matches!(state, FaxState::Complete | FaxState::Incomplete | FaxState::Failed(_)) {
        return false;
    }
    match status {
        FaxRxStatus::InProgress => {
            if let FaxState::Receiving { pages_received } = state {
                *pages_received = page_count;
            }
            false
        },
        FaxRxStatus::Complete => {
            *state = FaxState::Received;
            true
        },
        FaxRxStatus::Error(_) => {
            // Protocol failures may still have useful TIFF pages. Mark the
            // receiver ready so the common finalization path can recover them.
            *state = FaxState::Received;
            true
        },
    }
}

/// The progress that a reading stands for. A negative row count counts as none.
pub open spec fn progress_of(reading: ReceiverReading) -> FaxProgress {
    FaxProgress {
        negotiation_started: reading.negotiation_started,
        pages_received: reading.pages_received,
        image_length: match reading.image_length {
            Some(rows) => if rows > 0 {
                rows as u32
            } else {
                0
            },
            None => 0,
        },
    }
}

/// The progress that a reading stands for.
pub fn reading_progress(reading: ReceiverReading) -> (progress: FaxProgress)
    ensures
        progress == progress_of(reading),
{
    FaxProgress {
        negotiation_started: reading.negotiation_started,
        pages_received: reading.pages_received,
        image_length: match reading.image_length {
            Some(rows) => if rows > 0 {
                rows as u32
            } else {
                0
            },
            None => 0,
        },
    }
}

/// A single fax reception session
#[derive(Debug)]
pub struct FaxSession {
    /// SIP call ID for this fax
    pub call_id: CallId,
    /// Discord text channel to post the fax to
    pub text_channel_id: Snowflake,
    /// Guild ID (for logging)
    pub guild_id: Snowflake,
    /// User ID who owns this mapping
    pub user_id: String,
    /// Current state
    pub state: FaxState,
    /// How we're receiving the fax
    pub source: FaxSource,
    /// When this session was created
    pub created_at: FaxInstant,
    /// Most recent time the demodulator reported observable fax progress.
    pub last_progress_at: FaxInstant,
    /// Last observed progress marker, used to avoid extending the timeout for
    /// duplicate packets or timer ticks that do not advance the fax.
    pub last_progress: FaxProgress,
    /// A protocol, timeout, or disconnect reason which makes an otherwise
    /// readable TIFF an incomplete result.
    pub pending_incomplete_reason: Option<String>,
    /// Discord poster for this session
    pub poster: DiscordPoster,
    /// The receiver (audio or T.38 mode)
    pub receiver: FaxReceiverKind,
    /// Temp directory for this fax session's TIFF output
    pub tiff_dir: String,
    /// Discord message ID for the "Receiving fax..." status message.
    /// Stored separately so it survives state transitions to Complete/Failed.
    pub receiving_message_id: Option<u64>,
}

impl FaxSession {
    /// The source names the kind of the receiver.
    pub open spec fn wf(self) -> bool {
        self.source is G711Audio <==> self.receiver is Audio
    }

    /// The session after progress was looked at: only an advance moves the
    /// marker and the time of the last progress.
    pub open spec fn observed(self, progress: FaxProgress, now: FaxInstant) -> FaxSession {
        if progress.advances(self.last_progress) {
            FaxSession { last_progress: progress, last_progress_at: now, ..self }
        } else {
            self
        }
    }

    /// The session after a report of its receiver.
    pub open spec fn reported(self, report: ReceiverReport, now: FaxInstant) -> FaxSession {
        FaxSession {
            receiver: self.receiver.with_reading(report.reading),
            state: self.state.after(report.status, report.reading.pages_received),
            pending_incomplete_reason: if self.state.ends_with(report.status) {
                match report.status {
                    FaxRxStatus::Error(message) => Some(message),
                    FaxRxStatus::Complete | FaxRxStatus::InProgress => None,
                }
            } else {
                self.pending_incomplete_reason
            },
            ..self.observed(progress_of(report.reading), now)
        }
    }

    /// Create a new fax session around an audio receiver. Fails on a bot token
    /// that has not the form of one.
    pub fn new(
        call_id: CallId,
        text_channel_id: Snowflake,
        guild_id: Snowflake,
        user_id: String,
        bot_token: String,
        tiff_dir: String,
        receiver: FaxReceiver,
        now: FaxInstant,
    ) -> (session: Result<Self, FaxError>)
        ensures
            match session {
                Ok(session) => {
                    &&& token_is_valid(bot_token@)
                    &&& session.wf()
                    &&& session.call_id == call_id
                    &&& session.text_channel_id == text_channel_id
                    &&& session.guild_id == guild_id
                    &&& session.user_id@ == user_id@
                    &&& session.state == FaxState::WaitingForData
                    &&& session.source == FaxSource::G711Audio
                    &&& session.created_at == now
                    &&& session.last_progress_at == now
                    &&& session.last_progress == FaxProgress::nothing()
                    &&& session.pending_incomplete_reason is None
                    &&& session.poster.channel_id == text_channel_id
                    &&& session.poster.user_id@ == user_id@
                    &&& session.poster.display_name is None
                    &&& session.receiver == FaxReceiverKind::Audio(receiver)
                    &&& session.tiff_dir@ == tiff_dir@
                    &&& session.receiving_message_id is None
                },
                Err(error) => {
                    &&& !token_is_valid(bot_token@)
                    &&& error matches FaxError::InvalidToken(text)
                    &&& text@ == "The provided token was invalid"@
                },
            },
    {
        match DiscordPoster::new(bot_token, text_channel_id, user_id.clone()) {
            Err(error) => Err(error),
            Ok(poster) => Ok(
                FaxSession {
                    call_id,
                    text_channel_id,
                    guild_id,
                    user_id,
                    state: FaxState::WaitingForData,
                    source: FaxSource::G711Audio,
                    created_at: now,
                    last_progress_at: now,
                    last_progress: FaxProgress::default(),
                    pending_incomplete_reason: None,
                    poster,
                    receiver: FaxReceiverKind::Audio(receiver),
                    tiff_dir,
                    receiving_message_id: None,
                },
            ),
        }
    }

    /// What `feed_audio` answers without any samples being fed; `None` where
    /// the samples are to be fed to the receiver.
    pub open spec fn audio_refusal(self) -> Option<bool> {
        if self.state.has_ended() {
            Some(self.state is Received)
        } else if self.receiver is T38 {
            Some(false)
        } else {
            None
        }
    }

    /// What `feed_t38_ifp` and `drive_t38_timer` answer without the receiver
    /// being fed or driven; `None` where it is to be.
    pub open spec fn t38_refusal(self) -> Option<bool> {
        if self.state.has_ended() {
            Some(self.state is Received)
        } else if self.receiver is Audio {
            Some(false)
        } else {
            None
        }
    }

    /// What `feed_audio` answers without any samples being fed; `None` where
    /// the samples are to be fed to the receiver.
    pub fn audio_answer(&self) -> (answer: Option<bool>)
        ensures
            answer == self.audio_refusal(),
    {
        if self.is_finished() {
            return Some(matches!(self.state, FaxState::Received));
        }
        match self.receiver {
            FaxReceiverKind::Audio(_) => None,
            FaxReceiverKind::T38(_) => Some(false),
        }
    }

    /// What `feed_t38_ifp` and `drive_t38_timer` answer without the receiver
    /// being fed or driven; `None` where it is to be.
    pub fn t38_answer(&self) -> (answer: Option<bool>)
        ensures
            answer == self.t38_refusal(),
    {
        if self.is_finished() {
            return Some(matches!(self.state, FaxState::Received));
        }
        match self.receiver {
            FaxReceiverKind::T38(_) => None,
            FaxReceiverKind::Audio(_) => Some(false),
        }
    }

    /// Take the report that the receiver gave on audio samples from the call.
    /// Returns true when reception has ended and best-effort post-processing
    /// should run. Only works in audio mode: the report of another mode is
    /// refused.
    pub fn feed_audio(&mut self, report: ReceiverReport, now: FaxInstant) -> (ended: bool)
        ensures
            old(self).wf() ==> final(self).wf(),
            match old(self).audio_refusal() {
                Some(answer) => ended == answer && *final(self) == *old(self),
                None => ended == old(self).state.ends_with(report.status) && *final(self)
                    == old(self).reported(report, now),
            },
    {
        match self.audio_answer() {
            Some(answer) => answer,
            None => self.handle_rx_status(report, now),
        }
    }

    /// Take the report that the receiver gave on a T.38 IFP packet. Returns
    /// true when reception has ended and best-effort post-processing should
    /// run. Only works in T.38 mode.
    pub fn feed_t38_ifp(&mut self, report: ReceiverReport, now: FaxInstant) -> (ended: bool)
        ensures
            old(self).wf() ==> final(self).wf(),
            match old(self).t38_refusal() {
                Some(answer) => ended == answer && *final(self) == *old(self),
                None => ended == old(self).state.ends_with(report.status) && *final(self)
                    == old(self).reported(report, now),
            },
    {
        match self.t38_answer() {
            Some(answer) => answer,
            None => self.handle_rx_status(report, now),
        }
    }

    /// Take the report that the receiver gave when its T.38 terminal timer was
    /// driven (every 20ms). Returns true when reception has ended and
    /// best-effort post-processing should run.
    pub fn drive_t38_timer(&mut self, report: ReceiverReport, now: FaxInstant) -> (ended: bool)
        ensures
            old(self).wf() ==> final(self).wf(),
            match old(self).t38_refusal() {
                Some(answer) => ended == answer && *final(self) == *old(self),
                None => ended == old(self).state.ends_with(report.status) && *final(self)
                    == old(self).reported(report, now),
            },
    {
        match self.t38_answer() {
            Some(answer) => answer,
            None => self.handle_rx_status(report, now),
        }
    }

    /// Common handler for a report from either the audio or the T.38 receiver.
    pub fn handle_rx_status(&mut self, report: ReceiverReport, now: FaxInstant) -> (ended: bool)
        ensures
            old(self).wf() ==> final(self).wf(),
            ended == old(self).state.ends_with(report.status),
            *final(self) == old(self).reported(report, now),
    {
        let incomplete_reason: Option<String> = match &report.status {
            FaxRxStatus::Error(message) => Some(message.clone()),
            FaxRxStatus::Complete | FaxRxStatus::InProgress => None,
        };
        self.receiver.take_reading(report.reading);
        let page_count: u32 = self.pages_received();
        self.observe_progress(reading_progress(report.reading), now);
        let ready_to_post = apply_rx_status(&mut self.state, report.status, page_count);
        if ready_to_post {
            self.pending_incomplete_reason = incomplete_reason;
        }
        ready_to_post
    }

    /// Whether the two ends have started to negotiate.
    pub fn negotiation_started(&self) -> (started: bool)
        ensures
            started == self.receiver.latest().negotiation_started,
    {
        self.receiver.reading().negotiation_started
    }

    /// Refreshes the inactivity deadline where there is progress.
    pub fn observe_progress(&mut self, progress: FaxProgress, now: FaxInstant)
        ensures
            *final(self) == old(self).observed(progress, now),
    {
        if progress.has_advanced_from(self.last_progress) {
            self.last_progress = progress;
            self.last_progress_at = now;
        }
    }

    /// Number of pages received so far.
    pub fn pages_received(&self) -> (pages: u32)
        ensures
            pages == self.receiver.latest().pages_received,
    {
        self.receiver.reading().pages_received
    }

    /// Whether the sender marked the most recently received page as the end of
    /// the document. A call ending after this signal is normally successful
    /// even if the final phase-E callback did not arrive.
    pub fn document_end_signaled(&self) -> (signaled: bool)
        ensures
            signaled == self.receiver.latest().document_end_signaled,
    {
        self.receiver.reading().document_end_signaled
    }

    /// Check if this session has timed out
    pub fn is_timed_out(&self, now: FaxInstant) -> (timed_out: bool)
        ensures
            timed_out == timeout_at(self.created_at, self.last_progress_at, now) is Some,
    {
        timeout_reason_at(self.created_at, self.last_progress_at, now).is_some()
    }

    /// Check if the session is in a terminal state
    pub fn is_finished(&self) -> (finished: bool)
        ensures
            finished == self.state.has_ended(),
    {
        self.state.is_finished()
    }

    /// Whether TIFF conversion and Discord posting are still required.
    pub fn is_ready_to_post(&self) -> (ready: bool)
        ensures
            ready == self.state is Received,
    {
        matches!(self.state, FaxState::Received)
    }

    /// Whether a final Discord result has already been posted (or posting
    /// itself failed), making further recovery attempts a no-op.
    pub fn is_result_posted(&self) -> (posted: bool)
        ensures
            posted == self.state.is_posted(),
    {
        matches!(self.state, FaxState::Complete | FaxState::Incomplete | FaxState::Failed(_))
    }

    /// The session after reception was stopped.
    pub open spec fn finished(
        self,
        reading: ReceiverReading,
        incomplete_reason: Option<String>,
    ) -> FaxSession {
        if self.state.is_posted() {
            self
        } else {
            FaxSession {
                receiver: self.receiver.with_reading(reading),
                pending_incomplete_reason: incomplete_reason,
                state: FaxState::Received,
                ..self
            }
        }
    }

    /// Stop reception and make the current TIFF ready for best-effort
    /// post-processing. `None` means the protocol reached a clean ending.
    /// `reading` is what the receiver says once it has been told to stop.
    pub fn finish_reception(&mut self, reading: ReceiverReading, incomplete_reason: Option<String>)
        ensures
            old(self).wf() ==> final(self).wf(),
            *final(self) == old(self).finished(reading, incomplete_reason),
    {
        if self.is_result_posted() {
            return;
        }
        self.receiver.take_reading(reading);
        self.pending_incomplete_reason = incomplete_reason;
        self.state = FaxState::Received;
    }

    /// The session after it was switched to a T.38 receiver: progress starts
    /// anew.
    pub open spec fn switched(self, t38_receiver: FaxT38Receiver, now: FaxInstant) -> FaxSession {
        FaxSession {
            source: FaxSource::T38Udptl,
            receiver: FaxReceiverKind::T38(t38_receiver),
            last_progress: FaxProgress::nothing(),
            last_progress_at: now,
            ..self
        }
    }

    /// Switch from G.711 audio mode to T.38 UDPTL mode.
    ///
    /// Replaces the audio receiver with a T.38 receiver. The caller must:
    /// 1. Stop feeding audio samples (remove fax audio port)
    /// 2. Start the UDPTL processing tasks (rx, tx, timer)
    pub fn switch_to_t38(&mut self, t38_receiver: FaxT38Receiver, now: FaxInstant)
        ensures
            final(self).wf(),
            *final(self) == old(self).switched(t38_receiver, now),
    {
        self.source = FaxSource::T38Udptl;
        self.receiver = FaxReceiverKind::T38(t38_receiver);
        self.last_progress = FaxProgress::default();
        self.last_progress_at = now;
    }
}

/// The format of the posted images.
#[derive(Debug, Clone, Copy, PartialEq, Eq, Structural)]
pub enum OutputFormat {
    Png,
    Jpeg,
}

impl OutputFormat {
    /// The format that a configuration value asks for: JPEG for `"jpg"` and
    /// `"jpeg"`, else PNG.
    pub open spec fn configured(value: Seq<char>) -> OutputFormat {
        if value == "jpg"@ || value == "jpeg"@ {
            OutputFormat::Jpeg
        } else {
            OutputFormat::Png
        }
    }

    /// The file extension, without dot.
    pub open spec fn extension(self) -> Seq<char> {
        match self {
            OutputFormat::Png => "png"@,
            OutputFormat::Jpeg => "jpg"@,
        }
    }

    /// The format that a configuration value asks for.
    pub fn from_config(value: &str) -> (format: OutputFormat)
        ensures
            format == OutputFormat::configured(value@),
    {
        if same_text(value, "jpg") || same_text(value, "jpeg") {
            OutputFormat::Jpeg
        } else {
            OutputFormat::Png
        }
    }

    /// The file extension, without dot.
    pub fn file_ext(self) -> (ext: &'static str)
        ensures
            ext@ == self.extension(),
    {
        match self {
            OutputFormat::Png => "png",
            OutputFormat::Jpeg => "jpg",
        }
    }

    /// The name of the format in a log.
    pub fn label(self) -> (label: &'static str)
        ensures
            label@ == (match self {
                OutputFormat::Png => "PNG"@,
                OutputFormat::Jpeg => "JPEG"@,
            }),
    {
        match self {
            OutputFormat::Png => "PNG",
            OutputFormat::Jpeg => "JPEG",
        }
    }
}

/// The file that the image encoder writes for a gray picture, as JPEG or as
/// PNG, or the text of the error that it gives.
pub uninterp spec fn encoded_image(width: u32, height: u32, pixels: Seq<u8>, jpeg: bool) -> Result<
    Seq<u8>,
    Seq<char>,
>;

/// Encodes a gray picture with `image::DynamicImage::write_to`, which writes
/// the file for the 8-bit gray picture made of these pixels. The result, file
/// or error text, depends on the picture and the format alone. The picture is
/// made with `image::GrayImage::from_raw`, which gives one where there are at
/// least as many pixels as the width times the height; the encoders take
/// exactly that many.
#[verifier::external_body]
fn encode_gray(width: u32, height: u32, pixels: &[u8], format: OutputFormat) -> (encoded: Result<
    Vec<u8>,
    String,
>)
    requires
        pixels@.len() == width * height,
    ensures
        match encoded {
            Ok(file) => encoded_image(width, height, pixels@, format is Jpeg) == Ok::<
                Seq<u8>,
                Seq<char>,
            >(file@),
            Err(text) => encoded_image(width, height, pixels@, format is Jpeg) == Err::<
                Seq<u8>,
                Seq<char>,
            >(text@),
        },
{
    let format = match format {
        OutputFormat::Png => image::ImageFormat::Png,
        OutputFormat::Jpeg => image::ImageFormat::Jpeg,
    };
    let picture = image::GrayImage::from_raw(width, height, pixels.to_vec()).unwrap();
    let mut file = std::io::Cursor::new(Vec::new());
    match image::DynamicImage::ImageLuma8(picture).write_to(&mut file, format) {
        Ok(()) => Ok(file.into_inner()),
        Err(error) => Err(error.to_string()),
    }
}

/// What the encoder gives for the picture of a page.
pub open spec fn encoded_page(page: DecodedFaxPage, format: OutputFormat) -> Result<
    Seq<u8>,
    Seq<char>,
> {
    encoded_image(
        page.image.spec_width(),
        page.image.spec_height(),
        page.image.spec_pixels(),
        format is Jpeg,
    )
}

/// The encoded pages, each under its number in the document, or the text of
/// the first error.
pub open spec fn encoded_pages(pages: Seq<DecodedFaxPage>, format: OutputFormat) -> Result<
    Seq<PageView>,
    Seq<char>,
>
    decreases pages.len(),
{
    if pages.len() == 0 {
        Ok(Seq::empty())
    } else {
        match (encoded_pages(pages.drop_last(), format), encoded_page(pages.last(), format)) {
            (Err(text), _) => Err(text),
            (Ok(_), Err(text)) => Err(text),
            (Ok(before), Ok(data)) => Ok(
                before.push(PageView { page_number: pages.last().page_number as nat, data }),
            ),
        }
    }
}

proof fn lemma_first_error_stays(pages: Seq<DecodedFaxPage>, n: int, format: OutputFormat)
    requires
        0 <= n <= pages.len(),
        encoded_pages(pages.take(n), format) is Err,
    ensures
        encoded_pages(pages, format) == encoded_pages(pages.take(n), format),
    decreases pages.len() - n,
{
    if n < pages.len() {
        assert(pages.take(n + 1).drop_last() =~= pages.take(n));
        lemma_first_error_stays(pages, n + 1, format);
    } else {
        assert(pages.take(n) =~= pages);
    }
}

/// Encodes the recovered pages, stopping at the first that cannot be encoded.
pub fn encode_pages(pages: &Vec<DecodedFaxPage>, format: OutputFormat) -> (encoded: Result<
    Vec<FaxPageAttachment>,
    FaxError,
>)
    ensures
        match encoded {
            Ok(files) => encoded_pages(pages@, format) == Ok::<Seq<PageView>, Seq<char>>(
                page_views(files@),
            ),
            Err(error) => {
                &&& encoded_pages(pages@, format) matches Err(text)
                &&& error matches FaxError::Tiff(reason)
                &&& reason@ == "image encode: "@ + text
            },
        },
{
    let mut files: Vec<FaxPageAttachment> = Vec::new();
    let mut i: usize = 0;
    assert(page_views(files@) =~= Seq::<PageView>::empty());
    while i < pages.len()
        invariant
            i <= pages.len(),
            encoded_pages(pages@.take(i as int), format) == Ok::<Seq<PageView>, Seq<char>>(
                page_views(files@),
            ),
        decreases pages.len() - i,
    {
        let page: &DecodedFaxPage = &pages[i];
        assert(pages@.take(i + 1).drop_last() =~= pages@.take(i as int));
        let encoded = encode_gray(
            page.image.width(),
            page.image.height(),
            page.image.pixels(),
            format,
        );
        match encoded {
            Ok(data) => {
                let ghost before = files@;
                files.push(FaxPageAttachment { page_number: page.page_number, data });
                assert(page_views(files@) =~= page_views(before).push(
                    PageView { page_number: page.page_number as nat, data: data@ },
                ));
            },
            Err(text) => {
                proof {
                    lemma_first_error_stays(pages@, i + 1, format);
                }
                return Err(FaxError::Tiff(join("image encode: ", text.as_str())));
            },
        }
        i += 1;
    }
    assert(pages@.take(i as int) =~= pages@);
    Ok(files)
}

/// A result that is ready to be uploaded.
#[derive(Debug)]
pub struct FaxUpload {
    pub pages: Vec<FaxPageAttachment>,
    pub is_incomplete: bool,
    /// The file extension without dot
    pub file_ext: &'static str,
}

/// A result by its pages, whether it is incomplete, and its file extension.
pub struct UploadView {
    pub pages: Seq<PageView>,
    pub is_incomplete: bool,
    pub file_ext: Seq<char>,
}

impl View for FaxUpload {
    type V = UploadView;

    open spec fn view(&self) -> UploadView {
        UploadView {
            pages: page_views(self.pages@),
            is_incomplete: self.is_incomplete,
            file_ext: self.file_ext@,
        }
    }
}

/// Pages under new numbers, from 1 in their order.
pub open spec fn renumbered(pages: Seq<PageView>) -> Seq<PageView> {
    Seq::new(
        pages.len(),
        |i: int| PageView { page_number: (i + 1) as nat, data: pages[i].data },
    )
}

impl FaxUpload {
    /// The edit that shows the result under a footer.
    pub open spec fn shown_edit(self, footer: Seq<char>) -> EditView {
        if self.is_incomplete {
            result_edit(
                self@.pages,
                self.pages.len() as u32,
                self.file_ext@,
                FaxPostKind::Incomplete,
                footer,
            )
        } else {
            result_edit(
                renumbered(self@.pages),
                self.pages.len() as u32,
                self.file_ext@,
                FaxPostKind::Complete,
                footer,
            )
        }
    }

    /// The edit that shows the result. The pages of an incomplete result keep
    /// their numbers, so that gaps stay visible; those of a complete one are
    /// counted from 1.
    pub fn edit(&self, poster: &DiscordPoster) -> (edit: FaxResultEdit)
        ensures
            edit@ == self.shown_edit(poster.footer_text()),
    {
        let page_count: u32 = self.pages.len() as u32;
        if self.is_incomplete {
            let mut pages: Vec<FaxPageAttachment> = Vec::new();
            let mut i: usize = 0;
            while i < self.pages.len()
                invariant
                    i <= self.pages.len(),
                    pages@.len() == i,
                    forall|k: int| 0 <= k < i ==> (#[trigger] pages@[k])@ == self.pages@[k]@,
                decreases self.pages.len() - i,
            {
                let data: Vec<u8> = self.pages[i].data.clone();
                assert(data@ =~= self.pages@[i as int].data@);
                pages.push(FaxPageAttachment { page_number: self.pages[i].page_number, data });
                i += 1;
            }
            assert(page_views(pages@) =~= page_views(self.pages@));
            poster.edit_fax_incomplete(pages, page_count, self.file_ext)
        } else {
            let mut images: Vec<Vec<u8>> = Vec::new();
            let mut i: usize = 0;
            while i < self.pages.len()
                invariant
                    i <= self.pages.len(),
                    images@.len() == i,
                    forall|k: int| 0 <= k < i ==> (#[trigger] images@[k])@ == self.pages@[k].data@,
                decreases self.pages.len() - i,
            {
                let data: Vec<u8> = self.pages[i].data.clone();
                assert(data@ =~= self.pages@[i as int].data@);
                images.push(data);
                i += 1;
            }
            assert(numbered_pages(images@) =~= renumbered(self@.pages));
            poster.edit_fax_complete(images, page_count, self.file_ext)
        }
    }
}

/// What to do next to bring the result of a session to Discord.
#[derive(Debug)]
pub enum PostingStep {
    /// Nothing: a result has been posted already.
    Nothing,
    /// Post this failure, with `post_failure`; the session is then done.
    ReportFailure(String),
    /// Give up with this error.
    Fail(FaxError),
    /// There is no status message yet: post one, and hand what came of it to
    /// `receiving_posted` with the result to upload.
    PostReceiving(FaxUpload),
    /// Edit the status message to the result, and hand what came of it to
    /// `upload_finished`.
    Upload { message_id: u64, upload: FaxUpload },
}

/// A posting step by what it stands for.
pub enum PostingPlan {
    Nothing,
    ReportFailure(Seq<char>),
    /// Give up with the error that the decoder gave.
    FailDecoding(FaxError),
    /// Give up because of an encoder error with this text.
    FailEncoding(Seq<char>),
    PostReceiving(UploadView),
    Upload { message_id: u64, upload: UploadView },
}

/// Whether a step is the planned one.
pub open spec fn follows(step: PostingStep, plan: PostingPlan) -> bool {
    match plan {
        PostingPlan::Nothing => step is Nothing,
        PostingPlan::ReportFailure(text) => {
            &&& step matches PostingStep::ReportFailure(reason)
            &&& reason@ == text
        },
        PostingPlan::FailDecoding(error) => step == PostingStep::Fail(error),
        PostingPlan::FailEncoding(text) => {
            &&& step matches PostingStep::Fail(FaxError::Tiff(reason))
            &&& reason@ == "image encode: "@ + text
        },
        PostingPlan::PostReceiving(view) => {
            &&& step matches PostingStep::PostReceiving(upload)
            &&& upload@ == view
        },
        PostingPlan::Upload { message_id, upload } => {
            &&& step matches PostingStep::Upload { message_id: id, upload: ready }
            &&& id == message_id
            &&& ready@ == upload
        },
    }
}

/// How a failure is brought to Discord.
#[derive(Debug)]
pub enum FailurePost {
    /// Edit the status message to this embed.
    Edit { message_id: u64, embed: FaxEmbed },
    /// Post this embed as a message of its own.
    Post(FaxEmbed),
}

impl FaxSession {
    /// What the user is told when nothing of the document could be recovered:
    /// the reason why reception ended early, else what the decoder found.
    /// `None` where the error is not for the user.
    pub open spec fn decode_failure_text(self, error: FaxError) -> Option<Seq<char>> {
        match (self.pending_incomplete_reason, error) {
            (Some(reason), _) => Some(reason@),
            (None, FaxError::CorruptPageData(_)) => Some(error.text()),
            (None, FaxError::NoPages) => Some("No pages in received fax"@),
            (None, _) => None,
        }
    }

    /// How the encoded pages are to be posted.
    pub open spec fn result_plan(self, upload: UploadView) -> PostingPlan {
        if upload.pages.len() == 0 {
            PostingPlan::ReportFailure("No pages in received fax"@)
        } else {
            match self.receiving_message_id {
                None => PostingPlan::PostReceiving(upload),
                Some(message_id) => PostingPlan::Upload { message_id, upload },
            }
        }
    }

    /// What follows for a session from what the decoder gave.
    pub open spec fn posting_plan(
        self,
        decoded: Result<DecodedFax, FaxError>,
        output_format: Seq<char>,
    ) -> PostingPlan {
        let format = OutputFormat::configured(output_format);
        if self.state.is_posted() {
            PostingPlan::Nothing
        } else {
            match decoded {
                Err(error) => match self.decode_failure_text(error) {
                    Some(text) => PostingPlan::ReportFailure(text),
                    None => PostingPlan::FailDecoding(error),
                },
                Ok(fax) => match encoded_pages(fax.pages@, format) {
                    Err(text) => PostingPlan::FailEncoding(text),
                    Ok(pages) => self.result_plan(
                        UploadView {
                            pages,
                            is_incomplete: self.pending_incomplete_reason is Some
                                || fax.lacks_content(),
                            file_ext: format.extension(),
                        },
                    ),
                },
            }
        }
    }

    /// Begin to bring what the decoder recovered of the received TIFF to
    /// Discord. Called after fax reception ends, successfully or otherwise. The
    /// posted states make racing completion, timeout, and call-end paths
    /// idempotent.
    pub fn convert_and_post(
        &self,
        decoded: Result<DecodedFax, FaxError>,
        output_format: &str,
    ) -> (step: PostingStep)
        ensures
            follows(step, self.posting_plan(decoded, output_format@)),
    {
        if self.is_result_posted() {
            return PostingStep::Nothing;
        }
        let format = OutputFormat::from_config(output_format);
        let fax = match decoded {
            Ok(fax) => fax,
            Err(error) => {
                let user_message: Option<String> = match &self.pending_incomplete_reason {
                    Some(reason) => Some(reason.clone()),
                    None => match &error {
                        FaxError::CorruptPageData(_) => Some(error.to_string()),
                        FaxError::NoPages => Some("No pages in received fax".to_string()),
                        _ => None,
                    },
                };
                // The failure is reported as it is; callers are not to replace
                // it with their generic conversion fallback.
                return match user_message {
                    Some(text) => PostingStep::ReportFailure(text),
                    None => PostingStep::Fail(error),
                };
            },
        };
        let protocol_reason: Option<&str> = match &self.pending_incomplete_reason {
            Some(reason) => Some(reason.as_str()),
            None => None,
        };
        let is_incomplete = result_is_incomplete(protocol_reason, &fax);
        match encode_pages(&fax.pages, format) {
            Err(error) => PostingStep::Fail(error),
            Ok(pages) => self.post_pages(
                FaxUpload { pages, is_incomplete, file_ext: format.file_ext() },
            ),
        }
    }

    /// How the encoded pages are to be posted.
    pub fn post_pages(&self, upload: FaxUpload) -> (step: PostingStep)
        ensures
            follows(step, self.result_plan(upload@)),
    {
        if upload.pages.len() == 0 {
            return PostingStep::ReportFailure("No pages in received fax".to_string());
        }
        match self.receiving_message_id {
            // We never posted a "receiving" message (e.g., fast fax)
            None => PostingStep::PostReceiving(upload),
            Some(message_id) => PostingStep::Upload { message_id, upload },
        }
    }

    /// Whether two sessions differ in nothing but their state.
    pub open spec fn same_but_state(self, other: FaxSession) -> bool {
        self == (FaxSession { state: self.state, ..other })
    }

    /// Whether this is the other session after it has failed for this reason,
    /// changed in nothing else.
    pub open spec fn failed_from(self, other: FaxSession, text: Seq<char>) -> bool {
        &&& self.same_but_state(other)
        &&& self.state matches FaxState::Failed(reason)
        &&& reason@ == text
    }

    /// Whether this is the session, and `result` the result, after the initial
    /// status message was posted or could not be.
    pub open spec fn follows_first_post(
        self,
        before: FaxSession,
        posted: Result<u64, FaxError>,
        result: Result<(), FaxError>,
    ) -> bool {
        match posted {
            Ok(message_id) => {
                &&& result == Ok::<(), FaxError>(())
                &&& self == (FaxSession {
                    receiving_message_id: Some(message_id),
                    state: FaxState::Receiving { pages_received: 0 },
                    ..before
                })
            },
            Err(error) => {
                &&& result == Err::<(), FaxError>(error)
                &&& self.failed_from(before, "Discord error: "@ + error.text())
            },
        }
    }

    /// Take what came of posting the initial "Receiving fax..." message, sent
    /// when fax negotiation is detected: its ID, or the error.
    pub fn post_receiving_message(&mut self, posted: Result<u64, FaxError>) -> (result: Result<
        (),
        FaxError,
    >)
        ensures
            old(self).wf() ==> final(self).wf(),
            final(self).follows_first_post(*old(self), posted, result),
    {
        match posted {
            Ok(message_id) => {
                self.receiving_message_id = Some(message_id);
                self.state = FaxState::Receiving { pages_received: 0 };
                Ok(())
            },
            Err(error) => {
                self.state = FaxState::Failed(join("Discord error: ", error.to_string().as_str()));
                Err(error)
            },
        }
    }

    /// Whether this is the session, and `step` what to do next, after the status
    /// message that a result still lacked was posted or could not be.
    pub open spec fn follows_status_post(
        self,
        before: FaxSession,
        upload: FaxUpload,
        posted: Result<u64, FaxError>,
        step: PostingStep,
    ) -> bool {
        match posted {
            Ok(message_id) => {
                &&& step == PostingStep::Upload { message_id, upload }
                &&& self == (FaxSession { receiving_message_id: Some(message_id), ..before })
            },
            Err(error) => {
                &&& step == PostingStep::Fail(error)
                &&& self.failed_from(before, "Discord error: "@ + error.text())
            },
        }
    }

    /// Whether this is the session, and `result` the result of posting, after
    /// the status message was edited to the result or could not be.
    pub open spec fn follows_edit(
        self,
        before: FaxSession,
        is_incomplete: bool,
        outcome: Result<(), FaxError>,
        result: Result<(), FaxError>,
    ) -> bool {
        match outcome {
            Ok(()) => {
                &&& result is Ok
                &&& self == (FaxSession {
                    state: if is_incomplete {
                        FaxState::Incomplete
                    } else {
                        FaxState::Complete
                    },
                    ..before
                })
            },
            Err(error) => {
                &&& result == Err::<(), FaxError>(error)
                &&& self.failed_from(before, "Discord upload error: "@ + error.text())
            },
        }
    }

    /// Take what came of posting the status message that a result still lacked.
    pub fn receiving_posted(&mut self, upload: FaxUpload, posted: Result<u64, FaxError>) -> (step:
        PostingStep)
        ensures
            old(self).wf() ==> final(self).wf(),
            final(self).follows_status_post(*old(self), upload, posted, step),
    {
        match posted {
            Ok(message_id) => {
                self.receiving_message_id = Some(message_id);
                PostingStep::Upload { message_id, upload }
            },
            Err(error) => {
                self.state = FaxState::Failed(join("Discord error: ", error.to_string().as_str()));
                PostingStep::Fail(error)
            },
        }
    }

    /// Take what came of editing the status message to the result.
    pub fn upload_finished(&mut self, is_incomplete: bool, outcome: Result<(), FaxError>) -> (result:
        Result<(), FaxError>)
        ensures
            old(self).wf() ==> final(self).wf(),
            final(self).follows_edit(*old(self), is_incomplete, outcome, result),
    {
        match outcome {
            Ok(()) => {
                self.state = if is_incomplete {
                    FaxState::Incomplete
                } else {
                    FaxState::Complete
                };
                Ok(())
            },
            Err(error) => {
                self.state = FaxState::Failed(
                    join("Discord upload error: ", error.to_string().as_str()),
                );
                Err(error)
            },
        }
    }

    /// Whether this is how a failure of this session is brought to Discord.
    pub open spec fn tells_failure(self, post: FailurePost, reason: Seq<char>) -> bool {
        match self.receiving_message_id {
            Some(id) => {
                &&& post matches FailurePost::Edit { message_id, embed }
                &&& message_id == id
                &&& embed@ == self.poster.notice("Fax Failed"@, reason, COLOR_FAILED)
            },
            None => {
                &&& post matches FailurePost::Post(embed)
                &&& embed@ == self.poster.notice("Fax Failed"@, reason, COLOR_FAILED)
            },
        }
    }

    /// How a failure is brought to Discord: in place of the status message, or
    /// as a message of its own where there is none. The poster's display name
    /// is to be resolved before a message of its own is made.
    pub fn failure_post(&self, reason: &str) -> (post: FailurePost)
        ensures
            self.tells_failure(post, reason@),
    {
        match self.receiving_message_id {
            Some(message_id) => FailurePost::Edit {
                message_id,
                embed: self.poster.edit_fax_failed(reason),
            },
            None => FailurePost::Post(self.poster.post_fax_failed(reason)),
        }
    }

    /// The failure has been brought to Discord, or could not be.
    pub fn post_failure(&mut self, reason: &str)
        ensures
            old(self).wf() ==> final(self).wf(),
            final(self).failed_from(*old(self), reason@),
    {
        self.state = FaxState::Failed(reason.to_string());
    }
}

/// The odd constant that spreads call IDs over 64 bits.
pub const CALL_ID_MIX: u64 = 0x517cc1b727220a95;

/// The number of the session that a call starts at a moment, given in
/// nanoseconds since the Unix epoch.
pub open spec fn session_number(unix_nanos: u128, call_id: CallId) -> u64 {
    let moment = (unix_nanos % 0x1_0000_0000_0000_0000) as u64;
    let call = (call_id.0 as int * CALL_ID_MIX as int % 0x1_0000_0000_0000_0000) as u64;
    moment ^ call
}

/// The unique ID of a session, for its file names: 16 hexadecimal digits.
pub open spec fn session_id(unix_nanos: u128, call_id: CallId) -> Seq<char> {
    hex_digits(session_number(unix_nanos, call_id) as nat, 16)
}

/// The unique ID of a session, for its file names. Mixes the time with the call
/// ID.
pub fn fax_session_id(unix_nanos: u128, call_id: CallId) -> (id: String)
    ensures
        id@ == session_id(unix_nanos, call_id),
{
    let moment: u64 = (unix_nanos % 0x1_0000_0000_0000_0000) as u64;
    let call: u64 = call_id.0 as u64;
    let mixed: u64 = call.wrapping_mul(CALL_ID_MIX);
    proof {
        let n = call_id.0;
        assert(call as int == n as int % 0x1_0000_0000_0000_0000) by {
            if n >= 0 {
            } else {
                assert(n < 0 ==> n as u64 == 0x1_0000_0000_0000_0000 + n) by (bit_vector);
            }
        }
        vstd::arithmetic::div_mod::lemma_mul_mod_noop_left(
            n as int,
            CALL_ID_MIX as int,
            0x1_0000_0000_0000_0000,
        );
        assert(mixed as int == n as int * CALL_ID_MIX as int % 0x1_0000_0000_0000_0000);
    }
    hex16_text(moment ^ mixed)
}

/// The directory of a session under the configured folder.
pub fn fax_dir_name(prefix: &str, session_id: &str) -> (name: String)
    ensures
        name@ == prefix@ + session_id@,
{
    join(prefix, session_id)
}

/// The document file of a session in its directory.
pub fn fax_file_name(prefix: &str, session_id: &str) -> (name: String)
    ensures
        name@ == prefix@ + session_id@ + ".tiff"@,
{
    join(prefix, session_id).concat(".tiff")
}

/// A posted result is final: no report and no end of reception changes the
/// state, every feed is answered with "not ended", and there is nothing left
/// to post.
pub proof fn law_posted_result_is_final(
    session: FaxSession,
    report: ReceiverReport,
    now: FaxInstant,
    reason: Option<String>,
    decoded: Result<DecodedFax, FaxError>,
    output_format: Seq<char>,
)
    requires
        session.state.is_posted(),
    ensures
        session.reported(report, now).state == session.state,
        session.reported(report, now).pending_incomplete_reason
            == session.pending_incomplete_reason,
        session.finished(report.reading, reason) == session,
        session.audio_refusal() == Some(false),
        session.t38_refusal() == Some(false),
        session.posting_plan(decoded, output_format) is Nothing,
{
}

/// Reception that has ended never resumes: the session takes no more audio,
/// packets or timer ticks, and neither a report nor another end leads back to
/// waiting or receiving.
pub proof fn law_ended_reception_never_resumes(
    session: FaxSession,
    report: ReceiverReport,
    now: FaxInstant,
    reason: Option<String>,
)
    requires
        session.state.has_ended(),
    ensures
        session.audio_refusal() == Some(session.state is Received),
        session.t38_refusal() == Some(session.state is Received),
        session.reported(report, now).state.has_ended(),
        session.finished(report.reading, reason).state.has_ended(),
{
}

/// A report that ends reception leaves the document awaiting posting; a report
/// of ongoing reception never ends it.
pub proof fn law_report_ends_reception(
    session: FaxSession,
    report: ReceiverReport,
    now: FaxInstant,
)
    ensures
        session.state.ends_with(report.status) ==> session.reported(report, now).state is Received,
        report.status is InProgress ==> !session.state.ends_with(report.status)
            && session.reported(report, now).state.has_ended() == session.state.has_ended(),
{
}

impl FaxSession {
    /// The session after a report of its receiver was fed to it: nothing is
    /// taken where the mode of the receiver refuses it.
    pub open spec fn fed(self, report: ReceiverReport, now: FaxInstant) -> FaxSession {
        let refusal = if self.receiver is Audio {
            self.audio_refusal()
        } else {
            self.t38_refusal()
        };
        match refusal {
            Some(_) => self,
            None => self.reported(report, now),
        }
    }

    /// The session after all these reports were fed to it in turn.
    pub open spec fn fed_all(self, reports: Seq<(ReceiverReport, FaxInstant)>) -> FaxSession
        decreases reports.len(),
    {
        if reports.len() == 0 {
            self
        } else {
            self.fed_all(reports.drop_last()).fed(reports.last().0, reports.last().1)
        }
    }
}

/// Whether none of these reports ends reception.
pub open spec fn all_in_progress(reports: Seq<(ReceiverReport, FaxInstant)>) -> bool {
    forall|i: int| 0 <= i < reports.len() ==> (#[trigger] reports[i]).0.status is InProgress
}

/// However many reports of ongoing reception are fed, reception goes on: the
/// reason for an incomplete result, the start of the session and its mode stay
/// as they were.
pub proof fn law_reception_goes_on(
    session: FaxSession,
    reports: Seq<(ReceiverReport, FaxInstant)>,
)
    requires
        !session.state.has_ended(),
        all_in_progress(reports),
    ensures
        !session.fed_all(reports).state.has_ended(),
        session.fed_all(reports).pending_incomplete_reason == session.pending_incomplete_reason,
        session.fed_all(reports).created_at == session.created_at,
        session.fed_all(reports).receiver is Audio <==> session.receiver is Audio,
        reports.len() > 0 ==> session.fed_all(reports).receiver.latest()
            == reports.last().0.reading,
    decreases reports.len(),
{
    if reports.len() > 0 {
        let before = reports.drop_last();
        assert forall|i: int| 0 <= i < before.len() implies (
        #[trigger] before[i]).0.status is InProgress by {
            assert(before[i] == reports[i]);
        }
        law_reception_goes_on(session, before);
        assert(reports[reports.len() - 1].0.status is InProgress);
    }
}

/// The first report that ends reception decides: whatever is fed after it
/// changes nothing, the document awaits posting, and the result is incomplete
/// for the reason of that report and no other.
pub proof fn law_first_end_decides(
    session: FaxSession,
    before: Seq<(ReceiverReport, FaxInstant)>,
    end: (ReceiverReport, FaxInstant),
    after: Seq<(ReceiverReport, FaxInstant)>,
)
    requires
        !session.state.has_ended(),
        all_in_progress(before),
        !(end.0.status is InProgress),
    ensures
        ({
            let ended = session.fed_all(before + seq![end] + after);
            &&& ended == session.fed_all(before).reported(end.0, end.1)
            &&& ended.state is Received
            &&& ended.pending_incomplete_reason == (match end.0.status {
                FaxRxStatus::Error(message) => Some(message),
                _ => None,
            })
        }),
    decreases after.len(),
{
    let all = before + seq![end] + after;
    law_reception_goes_on(session, before);
    if after.len() == 0 {
        assert(all.drop_last() =~= before);
        assert(all.last() == end);
    } else {
        assert(all.drop_last() =~= before + seq![end] + after.drop_last());
        law_first_end_decides(session, before, end, after.drop_last());
    }
}

/// A progress marker that was seen already never extends the deadline: seeing
/// it once more, at whatever time, changes nothing.
pub proof fn law_duplicate_progress_changes_nothing(
    session: FaxSession,
    progress: FaxProgress,
    first: FaxInstant,
    second: FaxInstant,
)
    ensures
        !progress.advances(progress),
        session.observed(progress, first).observed(progress, second) == session.observed(
            progress,
            first,
        ),
{
}

/// A completed page, the start of negotiation, or a changed row count on the
/// same page refreshes the inactivity deadline: it then stands off for the full
/// inactivity time.
pub proof fn law_progress_refreshes_the_deadline(
    session: FaxSession,
    progress: FaxProgress,
    now: FaxInstant,
    later: FaxInstant,
)
    requires
        ({
            let previous = session.last_progress;
            ||| progress.pages_received > previous.pages_received
            ||| progress.negotiation_started && !previous.negotiation_started
            ||| progress.pages_received == previous.pages_received && progress.image_length
                != previous.image_length
        }),
        later.nanos < now.nanos + FAX_INACTIVITY_TIMEOUT_SECS * NANOS_PER_SEC,
    ensures
        session.observed(progress, now).last_progress_at == now,
        session.observed(progress, now).last_progress == progress,
        timeout_at(
            session.created_at,
            session.observed(progress, now).last_progress_at,
            later,
        ) != Some(FaxTimeoutReason::Inactive),
{
}

/// Progress never extends the hard limit of a session: from half an hour after
/// its start on, no report keeps it from being timed out.
pub proof fn law_session_limit_is_absolute(
    session: FaxSession,
    report: ReceiverReport,
    seen: FaxInstant,
    now: FaxInstant,
)
    requires
        now.nanos >= session.created_at.nanos + FAX_SESSION_LIMIT_SECS * NANOS_PER_SEC,
    ensures
        session.reported(report, seen).created_at == session.created_at,
        timeout_at(
            session.created_at,
            session.reported(report, seen).last_progress_at,
            now,
        ) == Some(FaxTimeoutReason::SessionLimit),
{
}

/// Within the session limit, progress keeps a session alive for the inactivity
/// time and no longer.
pub proof fn law_progress_defers_inactivity(
    created_at: FaxInstant,
    last_progress_at: FaxInstant,
    now: FaxInstant,
)
    requires
        created_at.nanos <= last_progress_at.nanos <= now.nanos,
        now.nanos < created_at.nanos + FAX_SESSION_LIMIT_SECS * NANOS_PER_SEC,
    ensures
        timeout_at(created_at, last_progress_at, now) is None <==> now.nanos
            < last_progress_at.nanos + FAX_INACTIVITY_TIMEOUT_SECS * NANOS_PER_SEC,
        timeout_at(created_at, last_progress_at, now) != Some(FaxTimeoutReason::SessionLimit),
{
}

/// A timeout that has fired does not go away by waiting.
pub proof fn law_timeout_stays(
    created_at: FaxInstant,
    last_progress_at: FaxInstant,
    now: FaxInstant,
    later: FaxInstant,
)
    requires
        timeout_at(created_at, last_progress_at, now) is Some,
        later.nanos >= now.nanos,
    ensures
        timeout_at(created_at, last_progress_at, later) is Some,
{
}

/// A protocol error costs no pages: whatever the decoder then recovers and the
/// encoder accepts is posted, as an incomplete result.
pub proof fn law_protocol_error_still_posts_pages(
    session: FaxSession,
    report: ReceiverReport,
    now: FaxInstant,
    fax: DecodedFax,
    output_format: Seq<char>,
)
    requires
        !session.state.is_posted(),
        report.status is Error,
        fax.pages@.len() > 0,
        encoded_pages(fax.pages@, OutputFormat::configured(output_format)) is Ok,
    ensures
        ({
            let upload = UploadView {
                pages: encoded_pages(fax.pages@, OutputFormat::configured(output_format))->Ok_0,
                is_incomplete: true,
                file_ext: OutputFormat::configured(output_format).extension(),
            };
            session.reported(report, now).posting_plan(Ok(fax), output_format) == (
            match session.receiving_message_id {
                Some(message_id) => PostingPlan::Upload { message_id, upload },
                None => PostingPlan::PostReceiving(upload),
            })
        }),
{
    law_encoding_keeps_page_numbers(fax.pages@, OutputFormat::configured(output_format));
}

/// A result is posted as complete exactly where reception ended cleanly and
/// nothing of the document is missing.
pub proof fn law_complete_means_nothing_missing(
    session: FaxSession,
    reading: ReceiverReading,
    reason: Option<String>,
    fax: DecodedFax,
    output_format: Seq<char>,
)
    requires
        !session.state.is_posted(),
    ensures
        ({
            let plan = session.finished(reading, reason).posting_plan(Ok(fax), output_format);
            &&& plan matches PostingPlan::Upload { upload, .. } ==> (upload.is_incomplete <==> reason
                is Some || fax.lacks_content())
            &&& plan matches PostingPlan::PostReceiving(upload) ==> (upload.is_incomplete <==> reason
                is Some || fax.lacks_content())
        }),
{
}

/// Encoding keeps every recovered page, in order and under its number.
pub proof fn law_encoding_keeps_page_numbers(pages: Seq<DecodedFaxPage>, format: OutputFormat)
    requires
        encoded_pages(pages, format) is Ok,
    ensures
        encoded_pages(pages, format)->Ok_0.len() == pages.len(),
        forall|i: int|
            0 <= i < pages.len() ==> (#[trigger] encoded_pages(
                pages,
                format,
            )->Ok_0[i]).page_number == pages[i].page_number,
    decreases pages.len(),
{
    if pages.len() > 0 {
        law_encoding_keeps_page_numbers(pages.drop_last(), format);
        let before = encoded_pages(pages.drop_last(), format)->Ok_0;
        assert forall|i: int| 0 <= i < pages.len() implies (#[trigger] encoded_pages(
            pages,
            format,
        )->Ok_0[i]).page_number == pages[i].page_number by {
            if i < pages.len() - 1 {
                assert(encoded_pages(pages, format)->Ok_0[i] == before[i]);
                assert(pages.drop_last()[i] == pages[i]);
            }
        }
    }
}

/// What comes of the requests of one posting.
pub struct PostingReplies {
    /// Of posting the status message
    pub status: Result<u64, FaxError>,
    /// Of editing it to the result
    pub edit: Result<(), FaxError>,
}

/// The posting of one result from start to end.
pub struct PostingRun {
    /// The steps in their order
    pub steps: Seq<PostingStep>,
    /// The session at the start, and after each step was carried out
    pub sessions: Seq<FaxSession>,
    /// The result with which it ends
    pub result: Result<(), FaxError>,
}

impl PostingRun {
    /// Whether the step at `i` was carried out: what it did to the session, and
    /// that the run goes on or ends with it, as the replies have it.
    pub open spec fn carries_out(self, i: int, replies: PostingReplies) -> bool {
        let before = self.sessions[i];
        let after = self.sessions[i + 1];
        let is_last = i == self.steps.len() - 1;
        match self.steps[i] {
            PostingStep::Nothing => is_last && after == before && self.result is Ok,
            PostingStep::ReportFailure(reason) => is_last && after.failed_from(before, reason@)
                && self.result is Ok,
            PostingStep::Fail(error) => is_last && after == before && self.result == Err::<
                (),
                FaxError,
            >(error),
            PostingStep::PostReceiving(upload) => !is_last && after.follows_status_post(
                before,
                upload,
                replies.status,
                self.steps[i + 1],
            ),
            PostingStep::Upload { upload, .. } => is_last && after.follows_edit(
                before,
                upload.is_incomplete,
                replies.edit,
                self.result,
            ),
        }
    }

    /// Whether this is a run from what the decoder gave: it starts with the
    /// planned step, and every step is carried out.
    pub open spec fn runs(
        self,
        decoded: Result<DecodedFax, FaxError>,
        output_format: Seq<char>,
        replies: PostingReplies,
    ) -> bool {
        &&& self.steps.len() > 0
        &&& self.sessions.len() == self.steps.len() + 1
        &&& follows(self.steps[0], self.sessions[0].posting_plan(decoded, output_format))
        &&& forall|i: int| 0 <= i < self.steps.len() ==> #[trigger] self.carries_out(i, replies)
    }
}

/// Whether a result is that of the first thing that goes wrong, a success where
/// nothing does or where the failure is reported to the user instead.
pub open spec fn first_error(
    plan: PostingPlan,
    replies: PostingReplies,
    result: Result<(), FaxError>,
) -> bool {
    match plan {
        PostingPlan::Nothing | PostingPlan::ReportFailure(_) => result is Ok,
        PostingPlan::FailDecoding(error) => result == Err::<(), FaxError>(error),
        PostingPlan::FailEncoding(text) => {
            &&& result matches Err(FaxError::Tiff(reason))
            &&& reason@ == "image encode: "@ + text
        },
        PostingPlan::PostReceiving(_) => match (replies.status, replies.edit) {
            (Err(error), _) => result == Err::<(), FaxError>(error),
            (Ok(_), Err(error)) => result == Err::<(), FaxError>(error),
            (Ok(_), Ok(_)) => result is Ok,
        },
        PostingPlan::Upload { .. } => match replies.edit {
            Err(error) => result == Err::<(), FaxError>(error),
            Ok(_) => result is Ok,
        },
    }
}

/// The message that a posting edits to the result, if it comes to that: the
/// status message that is there, or else the one that is posted first.
pub open spec fn edited_message(plan: PostingPlan, replies: PostingReplies) -> Option<
    (u64, UploadView),
> {
    match (plan, replies.status) {
        (PostingPlan::Upload { message_id, upload }, _) => Some((message_id, upload)),
        (PostingPlan::PostReceiving(upload), Ok(message_id)) => Some((message_id, upload)),
        _ => None,
    }
}

/// The posting of a result as a whole. It takes at most two steps. At most one
/// status message is posted, as the first step and only where there was none.
/// The result goes into exactly one message, by one edit, the last step: the
/// status message that was there or the one just posted, which the session then
/// remembers. The result is that of the first error. An end without error leaves
/// the session with a posted result, as complete or incomplete where it was
/// uploaded. Nothing but the state and the status message of the session
/// changes.
pub proof fn law_posting_run(
    run: PostingRun,
    decoded: Result<DecodedFax, FaxError>,
    output_format: Seq<char>,
    replies: PostingReplies,
)
    requires
        run.runs(decoded, output_format, replies),
    ensures
        ({
            let start = run.sessions[0];
            let end = run.sessions.last();
            let plan = start.posting_plan(decoded, output_format);
            &&& run.steps.len() <= 2
            &&& first_error(plan, replies, run.result)
            &&& run.result is Ok ==> end.state.is_posted()
            &&& forall|i: int|
                0 <= i < run.steps.len() && (#[trigger] run.steps[i]) is PostReceiving ==> i == 0
                    && start.receiving_message_id is None
            &&& match edited_message(plan, replies) {
                Some((id, view)) => {
                    &&& forall|i: int|
                        0 <= i < run.steps.len() ==> ((#[trigger] run.steps[i]) is Upload <==> i
                            == run.steps.len() - 1)
                    &&& run.steps.last() matches PostingStep::Upload { message_id, upload }
                    &&& message_id == id
                    &&& upload@ == view
                    &&& end.receiving_message_id == Some(id)
                    &&& run.result is Ok ==> end.state == (if view.is_incomplete {
                        FaxState::Incomplete
                    } else {
                        FaxState::Complete
                    })
                },
                None => {
                    &&& forall|i: int|
                        0 <= i < run.steps.len() ==> !((#[trigger] run.steps[i]) is Upload)
                    &&& end.receiving_message_id == start.receiving_message_id
                },
            }
            &&& start.receiving_message_id is Some ==> end.receiving_message_id
                == start.receiving_message_id
            &&& end == (FaxSession {
                state: end.state,
                receiving_message_id: end.receiving_message_id,
                ..start
            })
        }),
{
    assert(run.carries_out(0, replies));
    if run.steps[0] is PostReceiving {
        assert(run.carries_out(1, replies));
    }
}

proof fn lemma_sixteen_hex_digits_hold_64_bits()
    ensures
        hex_range(16) == 0x1_0000_0000_0000_0000,
{
    reveal_with_fuel(hex_range, 17);
}

/// Multiplying by the odd constant loses nothing modulo 2^64: multiplying by
/// its inverse gives the factor back.
proof fn lemma_mix_is_invertible(n: int)
    ensures
        (n * CALL_ID_MIX as int % 0x1_0000_0000_0000_0000) * 0x2040003d780970bd
            % 0x1_0000_0000_0000_0000 == n % 0x1_0000_0000_0000_0000,
{
    let m: int = 0x1_0000_0000_0000_0000;
    let c: int = CALL_ID_MIX as int;
    let inverse: int = 0x2040003d780970bd;
    vstd::arithmetic::div_mod::lemma_mul_mod_noop_left(n * c, inverse, m);
    assert((n * c) * inverse == n * (c * inverse)) by (nonlinear_arith);
    assert(c * inverse % m == 1);
    vstd::arithmetic::div_mod::lemma_mul_mod_noop_right(n, c * inverse, m);
}

/// Sessions of different calls that start at the same moment have different
/// IDs, and so have sessions of one call that start at different moments less
/// than 2^64 nanoseconds apart.
pub proof fn law_session_ids_differ(first: u128, second: u128, a: CallId, b: CallId)
    ensures
        a != b ==> session_id(first, a) != session_id(first, b),
        first < second < first + 0x1_0000_0000_0000_0000 ==> session_id(first, a) != session_id(
            second,
            a,
        ),
{
    lemma_sixteen_hex_digits_hold_64_bits();
    let m: int = 0x1_0000_0000_0000_0000;
    let c: int = CALL_ID_MIX as int;
    let moment = (first % 0x1_0000_0000_0000_0000) as u64;
    let other = (second % 0x1_0000_0000_0000_0000) as u64;
    let x = (a.0 as int * c % m) as u64;
    let y = (b.0 as int * c % m) as u64;
    if session_id(first, a) == session_id(first, b) {
        law_hex_is_injective(
            session_number(first, a) as nat,
            session_number(first, b) as nat,
            16,
        );
        assert(x == y) by (bit_vector)
            requires
                moment ^ x == moment ^ y,
        ;
        lemma_mix_is_invertible(a.0 as int);
        lemma_mix_is_invertible(b.0 as int);
        assert(a.0 as int % m == b.0 as int % m);
        assert(a.0 == b.0);
    }
    if session_id(first, a) == session_id(second, a) {
        law_hex_is_injective(
            session_number(first, a) as nat,
            session_number(second, a) as nat,
            16,
        );
        assert(moment == other) by (bit_vector)
            requires
                moment ^ x == other ^ x,
        ;
        if first < second < first + m {
            assert(first as int % m == second as int % m);
            assert((second - first) % m == 0) by {
                vstd::arithmetic::div_mod::lemma_mod_equivalence(second as int, first as int, m);
            }
            assert(0 < second - first < m);
        }
    }
}

/// Every recovered page gets the picture that the encoder makes of its own
/// image in the asked format, in order and under its own number; and the pages
/// can all be encoded exactly where each of them can.
pub proof fn law_every_page_shows_its_own_picture(
    pages: Seq<DecodedFaxPage>,
    format: OutputFormat,
    i: int,
)
    requires
        0 <= i < pages.len(),
    ensures
        encoded_pages(pages, format) matches Ok(files) ==> {
            &&& files.len() == pages.len()
            &&& files[i].page_number == pages[i].page_number
            &&& encoded_image(
                pages[i].image.spec_width(),
                pages[i].image.spec_height(),
                pages[i].image.spec_pixels(),
                format == OutputFormat::Jpeg,
            ) == Ok::<Seq<u8>, Seq<char>>(files[i].data)
        },
        encoded_image(
            pages[i].image.spec_width(),
            pages[i].image.spec_height(),
            pages[i].image.spec_pixels(),
            format == OutputFormat::Jpeg,
        ) is Err ==> encoded_pages(pages, format) is Err,
    decreases pages.len(),
{
    let before = pages.drop_last();
    if i < before.len() {
        law_every_page_shows_its_own_picture(before, format, i);
        assert(before[i] == pages[i]);
        if encoded_pages(pages, format) is Ok {
            assert(encoded_pages(pages, format)->Ok_0[i] == encoded_pages(
                before,
                format,
            )->Ok_0[i]);
        }
    }
    if encoded_pages(pages, format) is Ok {
        law_encoding_keeps_page_numbers(pages, format);
        law_encoding_keeps_page_numbers(before, format);
    }
}

/// Where some page cannot be encoded, the error is that of the first such page;
/// where every page can be, there is none.
pub proof fn law_first_unencodable_page_decides(
    pages: Seq<DecodedFaxPage>,
    format: OutputFormat,
    n: int,
)
    requires
        0 <= n <= pages.len(),
        forall|k: int|
            0 <= k < n ==> encoded_image(
                (#[trigger] pages[k]).image.spec_width(),
                pages[k].image.spec_height(),
                pages[k].image.spec_pixels(),
                format == OutputFormat::Jpeg,
            ) is Ok,
    ensures
        n == pages.len() ==> encoded_pages(pages, format) is Ok,
        n < pages.len() ==> (encoded_image(
            pages[n].image.spec_width(),
            pages[n].image.spec_height(),
            pages[n].image.spec_pixels(),
            format == OutputFormat::Jpeg,
        ) matches Err(text) ==> encoded_pages(pages, format) == Err::<Seq<PageView>, Seq<char>>(
            text,
        )),
    decreases pages.len(),
{
    if pages.len() > 0 {
        let before = pages.drop_last();
        assert forall|k: int| 0 <= k < n && k < before.len() implies encoded_image(
            (#[trigger] before[k]).image.spec_width(),
            before[k].image.spec_height(),
            before[k].image.spec_pixels(),
            format == OutputFormat::Jpeg,
        ) is Ok by {
            assert(before[k] == pages[k]);
        }
        if n == pages.len() {
            law_first_unencodable_page_decides(before, format, n - 1);
            assert(pages[n - 1] == pages.last());
        } else {
            law_first_unencodable_page_decides(before, format, n);
            if n < before.len() {
                assert(before[n] == pages[n]);
            } else {
                assert(pages[n] == pages.last());
            }
        }
    }
}

/// A report that a session takes, in audio mode and in T.38 mode alike, counts
/// as progress where it shows a new page, the start of negotiation or another
/// row count for the same page: the session then remembers its reading and its
/// time, and is not inactive until five minutes later. Any other report leaves
/// both as they were.
pub proof fn law_taken_report_is_progress(
    session: FaxSession,
    report: ReceiverReport,
    now: FaxInstant,
    later: FaxInstant,
)
    ensures
        ({
            let rows = match report.reading.image_length {
                Some(n) if n > 0 => n as int,
                _ => 0int,
            };
            let seen = session.last_progress;
            let advanced = {
                ||| report.reading.pages_received > seen.pages_received
                ||| report.reading.negotiation_started && !seen.negotiation_started
                ||| report.reading.pages_received == seen.pages_received && rows
                    != seen.image_length
            };
            let after = session.reported(report, now);
            &&& advanced ==> {
                &&& after.last_progress_at == now
                &&& after.last_progress.pages_received == report.reading.pages_received
                &&& after.last_progress.negotiation_started == report.reading.negotiation_started
                &&& after.last_progress.image_length == rows
                &&& later.nanos - now.nanos < 300_000_000_000 ==> timeout_at(
                    after.created_at,
                    after.last_progress_at,
                    later,
                ) != Some(FaxTimeoutReason::Inactive)
            }
            &&& !advanced ==> {
                &&& after.last_progress_at == session.last_progress_at
                &&& after.last_progress == session.last_progress
            }
            &&& session.state is WaitingForData || session.state is Receiving ==> session.fed(
                report,
                now,
            ) == after
        }),
{
}

/// What a report does to a session and what it leaves alone: the receiver keeps
/// its kind and its file and shows the new reading; a completion or an error
/// brings every session without a posted result to the state in which the
/// document awaits posting, with the message of the error, if it is one, as the
/// reason why the result is incomplete; ongoing reception only counts the pages
/// of a session that is receiving. Nothing else changes but the progress.
pub proof fn law_report_changes(session: FaxSession, report: ReceiverReport, now: FaxInstant)
    ensures
        ({
            let after = session.reported(report, now);
            let posted = match session.state {
                FaxState::Complete | FaxState::Incomplete | FaxState::Failed(_) => true,
                _ => false,
            };
            &&& match session.receiver {
                FaxReceiverKind::Audio(receiver) => {
                    &&& after.receiver matches FaxReceiverKind::Audio(r)
                    &&& r.tiff_output_path == receiver.tiff_output_path
                    &&& r.reading == report.reading
                },
                FaxReceiverKind::T38(receiver) => {
                    &&& after.receiver matches FaxReceiverKind::T38(r)
                    &&& r.tiff_output_path == receiver.tiff_output_path
                    &&& r.reading == report.reading
                },
            }
            &&& after.receiver.latest() == report.reading
            &&& session.state.ends_with(report.status) <==> !posted && !(report.status
                is InProgress)
            &&& posted ==> after.state == session.state && after.pending_incomplete_reason
                == session.pending_incomplete_reason
            &&& !posted ==> match report.status {
                FaxRxStatus::Complete => after.state is Received
                    && after.pending_incomplete_reason is None,
                FaxRxStatus::Error(message) => after.state is Received
                    && after.pending_incomplete_reason == Some(message),
                FaxRxStatus::InProgress => {
                    &&& after.pending_incomplete_reason == session.pending_incomplete_reason
                    &&& session.state is WaitingForData ==> after.state is WaitingForData
                    &&& session.state is Received ==> after.state is Received
                    &&& session.state is Receiving ==> after.state == FaxState::Receiving {
                        pages_received: report.reading.pages_received,
                    }
                },
            }
            &&& after.call_id == session.call_id
            &&& after.text_channel_id == session.text_channel_id
            &&& after.guild_id == session.guild_id
            &&& after.user_id == session.user_id
            &&& after.source == session.source
            &&& after.created_at == session.created_at
            &&& after.poster == session.poster
            &&& after.tiff_dir == session.tiff_dir
            &&& after.receiving_message_id == session.receiving_message_id
        }),
{
}

/// A bare state changes with a report as the state of a session does.
pub proof fn law_state_changes(state: FaxState, status: FaxRxStatus, page_count: u32)
    ensures
        ({
            let after = state.after(status, page_count);
            &&& match state {
                FaxState::WaitingForData => match status {
                    FaxRxStatus::InProgress => after is WaitingForData,
                    _ => after is Received,
                },
                FaxState::Receiving { .. } => match status {
                    FaxRxStatus::InProgress => after == FaxState::Receiving {
                        pages_received: page_count,
                    },
                    _ => after is Received,
                },
                FaxState::Received => after is Received,
                FaxState::Complete | FaxState::Incomplete | FaxState::Failed(_) => after == state,
            }
            &&& state.has_ended() <==> !(state is WaitingForData) && !(state is Receiving)
            &&& state.is_posted() <==> state.has_ended() && !(state is Received)
        }),
{
}

/// A session is fed audio exactly while reception goes on with an audio
/// receiver, and packets and timer ticks exactly while it goes on with a T.38
/// receiver. A feed that is refused is answered with whether the document
/// awaits posting.
pub proof fn law_refusals(session: FaxSession)
    ensures
        ({
            let goes_on = session.state is WaitingForData || session.state is Receiving;
            &&& session.audio_refusal() is None <==> goes_on && session.receiver is Audio
            &&& session.t38_refusal() is None <==> goes_on && session.receiver is T38
            &&& session.audio_refusal() matches Some(answer) ==> (answer <==> session.state
                is Received)
            &&& session.t38_refusal() matches Some(answer) ==> (answer <==> session.state
                is Received)
        }),
{
}

/// Stopping reception makes the document of every session without a posted
/// result ready for posting, with the given reason, if any, and the last
/// reading of the same receiver; a session with a posted result is left alone.
/// Nothing else changes.
pub proof fn law_stopping_makes_ready(
    session: FaxSession,
    reading: ReceiverReading,
    reason: Option<String>,
)
    ensures
        ({
            let after = session.finished(reading, reason);
            let posted = match session.state {
                FaxState::Complete | FaxState::Incomplete | FaxState::Failed(_) => true,
                _ => false,
            };
            &&& posted ==> after == session
            &&& !posted ==> {
                &&& after.state is Received
                &&& after.pending_incomplete_reason == reason
                &&& after.receiver.latest() == reading
                &&& after.receiver is Audio <==> session.receiver is Audio
            }
            &&& after.last_progress == session.last_progress
            &&& after.last_progress_at == session.last_progress_at
            &&& after.call_id == session.call_id
            &&& after.text_channel_id == session.text_channel_id
            &&& after.guild_id == session.guild_id
            &&& after.user_id == session.user_id
            &&& after.source == session.source
            &&& after.created_at == session.created_at
            &&& after.poster == session.poster
            &&& after.tiff_dir == session.tiff_dir
            &&& after.receiving_message_id == session.receiving_message_id
        }),
{
}

/// A receiver that takes a reading keeps its kind and its file.
pub proof fn law_reading_is_all_that_changes(receiver: FaxReceiverKind, reading: ReceiverReading)
    ensures
        receiver.with_reading(reading).latest() == reading,
        receiver matches FaxReceiverKind::Audio(r) ==> receiver.with_reading(reading) == (
        FaxReceiverKind::Audio(FaxReceiver { tiff_output_path: r.tiff_output_path, reading })),
        receiver matches FaxReceiverKind::T38(r) ==> receiver.with_reading(reading) == (
        FaxReceiverKind::T38(FaxT38Receiver { tiff_output_path: r.tiff_output_path, reading })),
{
}

/// A session is timed out by its limit exactly from half an hour after its
/// start on, and for inactivity exactly where it is not and the last progress
/// is five minutes back or more.
pub proof fn law_timeouts_are_exact(
    created_at: FaxInstant,
    last_progress_at: FaxInstant,
    now: FaxInstant,
)
    ensures
        ({
            let reason = timeout_at(created_at, last_progress_at, now);
            let limit = now.nanos - created_at.nanos >= 1_800_000_000_000;
            let inactive = now.nanos - last_progress_at.nanos >= 300_000_000_000;
            &&& reason == Some(FaxTimeoutReason::SessionLimit) <==> limit
            &&& reason == Some(FaxTimeoutReason::Inactive) <==> inactive && !limit
            &&& reason is None <==> !inactive && !limit
            &&& now.nanos_since(created_at) == (if now.nanos > created_at.nanos {
                now.nanos - created_at.nanos
            } else {
                0int
            })
        }),
{
}

/// To begin with there is no progress: no negotiation, no pages, no rows.
pub proof fn law_progress_begins_with_nothing(reading: ReceiverReading)
    ensures
        !FaxProgress::nothing().negotiation_started,
        FaxProgress::nothing().pages_received == 0,
        FaxProgress::nothing().image_length == 0,
        progress_of(reading).negotiation_started == reading.negotiation_started,
        progress_of(reading).pages_received == reading.pages_received,
        reading.image_length is None ==> progress_of(reading).image_length == 0,
        reading.image_length matches Some(n) ==> progress_of(reading).image_length == (if n < 0 {
            0int
        } else {
            n as int
        }),
{
}

/// JPEG is asked for by `jpg` and `jpeg`, in lower case, and PNG by everything
/// else; the extension of the files goes with the format.
pub proof fn law_formats_by_name(value: Seq<char>)
    ensures
        OutputFormat::configured(value) == OutputFormat::Jpeg <==> value == seq!['j', 'p', 'g']
            || value == seq!['j', 'p', 'e', 'g'],
        OutputFormat::Jpeg.extension() == seq!['j', 'p', 'g'],
        OutputFormat::Png.extension() == seq!['p', 'n', 'g'],
{
    reveal_strlit("jpg");
    reveal_strlit("jpeg");
    reveal_strlit("png");
    assert("jpg"@ =~= seq!['j', 'p', 'g']);
    assert("jpeg"@ =~= seq!['j', 'p', 'e', 'g']);
    assert("png"@ =~= seq!['p', 'n', 'g']);
}

/// Renumbered pages keep their order and their bytes and are counted from one.
pub proof fn law_renumbering_keeps_the_bytes(pages: Seq<PageView>, upload: FaxUpload, i: int)
    ensures
        renumbered(pages).len() == pages.len(),
        0 <= i < pages.len() ==> renumbered(pages)[i].page_number == i + 1
            && renumbered(pages)[i].data == pages[i].data,
        upload@.is_incomplete == upload.is_incomplete,
        upload@.file_ext == upload.file_ext@,
        upload@.pages.len() == upload.pages@.len(),
        0 <= i < upload.pages@.len() ==> upload@.pages[i].page_number
            == upload.pages@[i].page_number && upload@.pages[i].data == upload.pages@[i].data@,
{
}

/// Where nothing could be recovered, the user is told the reason why reception
/// ended early, else that the data is corrupt or that there are no pages; any
/// other error goes to the caller as it is. A posted result is left alone.
pub proof fn law_unrecovered_fax_is_reported(
    session: FaxSession,
    error: FaxError,
    output_format: Seq<char>,
)
    requires
        session.state is WaitingForData || session.state is Receiving || session.state is Received,
    ensures
        ({
            let plan = session.posting_plan(Err(error), output_format);
            match session.pending_incomplete_reason {
                Some(reason) => plan == PostingPlan::ReportFailure(reason@),
                None => match error {
                    FaxError::CorruptPageData(reason) => plan == PostingPlan::ReportFailure(
                        "corrupt fax page data: "@ + reason@,
                    ),
                    FaxError::NoPages => plan == PostingPlan::ReportFailure(
                        "No pages in received fax"@,
                    ),
                    _ => plan == PostingPlan::FailDecoding(error),
                },
            }
        }),
{
}

/// What was recovered is posted page by page, each with the picture of its own
/// image under its own number, in the format and with the extension that the
/// configuration asks for. It goes to the status message that is there; where
/// there is none, one is posted first.
pub proof fn law_recovered_pages_are_posted(
    session: FaxSession,
    fax: DecodedFax,
    output_format: Seq<char>,
    i: int,
)
    requires
        session.state is WaitingForData || session.state is Receiving || session.state is Received,
        0 <= i < fax.pages@.len(),
        forall|k: int|
            0 <= k < fax.pages@.len() ==> encoded_image(
                (#[trigger] fax.pages@[k]).image.spec_width(),
                fax.pages@[k].image.spec_height(),
                fax.pages@[k].image.spec_pixels(),
                output_format == "jpg"@ || output_format == "jpeg"@,
            ) is Ok,
    ensures
        ({
            let plan = session.posting_plan(Ok(fax), output_format);
            let jpeg = output_format == "jpg"@ || output_format == "jpeg"@;
            let upload = match plan {
                PostingPlan::Upload { upload, .. } => upload,
                PostingPlan::PostReceiving(upload) => upload,
                _ => arbitrary(),
            };
            &&& session.receiving_message_id matches Some(id) ==> (plan
                matches PostingPlan::Upload { message_id, .. } && message_id == id)
            &&& session.receiving_message_id is None ==> plan is PostReceiving
            &&& upload.pages.len() == fax.pages@.len()
            &&& upload.pages[i].page_number == fax.pages@[i].page_number
            &&& encoded_image(
                fax.pages@[i].image.spec_width(),
                fax.pages@[i].image.spec_height(),
                fax.pages@[i].image.spec_pixels(),
                jpeg,
            ) == Ok::<Seq<u8>, Seq<char>>(upload.pages[i].data)
            &&& upload.file_ext == (if jpeg {
                "jpg"@
            } else {
                "png"@
            })
        }),
{
    let format = OutputFormat::configured(output_format);
    law_first_unencodable_page_decides(fax.pages@, format, fax.pages@.len() as int);
    law_every_page_shows_its_own_picture(fax.pages@, format, i);
}

/// A result is incomplete where the protocol gave a reason, where any page is
/// there in part, wherever it stands, or where any page is omitted, and only
/// there.
pub proof fn law_incomplete_results_are_told(
    session: FaxSession,
    fax: DecodedFax,
    output_format: Seq<char>,
    i: int,
)
    ensures
        ({
            let plan = session.posting_plan(Ok(fax), output_format);
            let incomplete = match plan {
                PostingPlan::Upload { upload, .. } => Some(upload.is_incomplete),
                PostingPlan::PostReceiving(upload) => Some(upload.is_incomplete),
                _ => None,
            };
            &&& incomplete is Some && session.pending_incomplete_reason is Some ==> incomplete
                == Some(true)
            &&& incomplete is Some && 0 <= i < fax.pages@.len() && fax.pages@[i].completeness
                is Partial ==> incomplete == Some(true)
            &&& incomplete is Some && fax.omitted_pages@.len() > 0 ==> incomplete == Some(true)
            &&& incomplete is Some && session.pending_incomplete_reason is None
                && fax.omitted_pages@.len() == 0 && (forall|k: int|
                0 <= k < fax.pages@.len() ==> (#[trigger] fax.pages@[k]).completeness is Complete)
                ==> incomplete == Some(false)
        }),
{
    law_any_missing_part_counts(fax, i);
}

/// A fax without pages is reported as a failure; a page that cannot be encoded
/// ends the posting with the encoder's error for the first such page; and a
/// session with a posted result has nothing to post.
pub proof fn law_results_without_pages(
    session: FaxSession,
    fax: DecodedFax,
    output_format: Seq<char>,
    n: int,
)
    requires
        0 <= n < fax.pages@.len() ==> forall|k: int|
            0 <= k < n ==> encoded_image(
                (#[trigger] fax.pages@[k]).image.spec_width(),
                fax.pages@[k].image.spec_height(),
                fax.pages@[k].image.spec_pixels(),
                output_format == "jpg"@ || output_format == "jpeg"@,
            ) is Ok,
    ensures
        ({
            let plan = session.posting_plan(Ok(fax), output_format);
            let open = session.state is WaitingForData || session.state is Receiving
                || session.state is Received;
            &&& !open ==> plan is Nothing
            &&& open && fax.pages@.len() == 0 ==> plan == PostingPlan::ReportFailure(
                "No pages in received fax"@,
            )
            &&& open && 0 <= n < fax.pages@.len() ==> (encoded_image(
                fax.pages@[n].image.spec_width(),
                fax.pages@[n].image.spec_height(),
                fax.pages@[n].image.spec_pixels(),
                output_format == "jpg"@ || output_format == "jpeg"@,
            ) matches Err(text) ==> plan == PostingPlan::FailEncoding(text))
        }),
{
    if 0 <= n < fax.pages@.len() {
        law_first_unencodable_page_decides(
            fax.pages@,
            OutputFormat::configured(output_format),
            n,
        );
    }
}

/// A step follows a plan in nothing less than its kind, its text or error, its
/// message and all of the result to upload.
pub proof fn law_step_is_the_planned_one(
    step: PostingStep,
    text: Seq<char>,
    error: FaxError,
    message_id: u64,
    upload: UploadView,
)
    ensures
        follows(step, PostingPlan::Nothing) <==> step == PostingStep::Nothing,
        follows(step, PostingPlan::ReportFailure(text)) <==> match step {
            PostingStep::ReportFailure(reason) => reason@ == text,
            _ => false,
        },
        follows(step, PostingPlan::FailDecoding(error)) <==> step == PostingStep::Fail(error),
        follows(step, PostingPlan::FailEncoding(text)) <==> match step {
            PostingStep::Fail(FaxError::Tiff(reason)) => reason@ == "image encode: "@ + text,
            _ => false,
        },
        follows(step, PostingPlan::PostReceiving(upload)) <==> match step {
            PostingStep::PostReceiving(ready) => ready@ == upload,
            _ => false,
        },
        follows(step, PostingPlan::Upload { message_id, upload }) <==> match step {
            PostingStep::Upload { message_id: id, upload: ready } => id == message_id && ready@
                == upload,
            _ => false,
        },
{
}

/// A session that has failed differs from the one before in its state alone,
/// which carries the reason.
pub proof fn law_failure_changes_the_state_alone(
    after: FaxSession,
    before: FaxSession,
    text: Seq<char>,
)
    ensures
        after.failed_from(before, text) <==> {
            &&& after.state matches FaxState::Failed(reason)
            &&& reason@ == text
            &&& after.call_id == before.call_id
            &&& after.text_channel_id == before.text_channel_id
            &&& after.guild_id == before.guild_id
            &&& after.user_id == before.user_id
            &&& after.source == before.source
            &&& after.created_at == before.created_at
            &&& after.last_progress_at == before.last_progress_at
            &&& after.last_progress == before.last_progress
            &&& after.pending_incomplete_reason == before.pending_incomplete_reason
            &&& after.poster == before.poster
            &&& after.receiver == before.receiver
            &&& after.tiff_dir == before.tiff_dir
            &&& after.receiving_message_id == before.receiving_message_id
        },
{
}

/// What the replies of Discord do to a session: a status message that was
/// posted is remembered and then edited with the same result; an edit that
/// succeeds ends the session as complete or incomplete; each error fails the
/// session with a text that names it, and is handed on.
pub proof fn law_replies_decide(
    after: FaxSession,
    before: FaxSession,
    upload: FaxUpload,
    message_id: u64,
    error: FaxError,
    step: PostingStep,
    result: Result<(), FaxError>,
    is_incomplete: bool,
)
    ensures
        after.follows_status_post(before, upload, Ok(message_id), step) ==> {
            &&& step == PostingStep::Upload { message_id, upload }
            &&& after.receiving_message_id == Some(message_id)
            &&& after.state == before.state
            &&& after.pending_incomplete_reason == before.pending_incomplete_reason
            &&& after.poster == before.poster
        },
        after.follows_status_post(before, upload, Err(error), step) ==> {
            &&& step == PostingStep::Fail(error)
            &&& after.failed_from(before, "Discord error: "@ + error.text())
        },
        after.follows_edit(before, is_incomplete, Ok(()), result) ==> {
            &&& result is Ok
            &&& is_incomplete ==> after.state is Incomplete
            &&& !is_incomplete ==> after.state is Complete
            &&& after.receiving_message_id == before.receiving_message_id
        },
        after.follows_edit(before, is_incomplete, Err(error), result) ==> {
            &&& result == Err::<(), FaxError>(error)
            &&& after.failed_from(before, "Discord upload error: "@ + error.text())
        },
{
}

/// Time and call each leave their whole mark on the number of a session: two
/// moments, taken modulo 2^64, make two numbers of one call differ in exactly
/// the bits in which the moments differ, and at the start of time the number is
/// the call ID times the constant, modulo 2^64.
pub proof fn law_session_number_mixes(first: u128, second: u128, call_id: CallId)
    ensures
        session_number(first, call_id) ^ session_number(second, call_id) == ((first
            % 0x1_0000_0000_0000_0000) as u64) ^ ((second % 0x1_0000_0000_0000_0000) as u64),
        (session_number(0, call_id) - call_id.0 * 0x517cc1b727220a95) % 0x1_0000_0000_0000_0000
            == 0,
        session_id(first, call_id).len() == 16,
{
    let m: int = 0x1_0000_0000_0000_0000;
    let a = (first % 0x1_0000_0000_0000_0000) as u64;
    let b = (second % 0x1_0000_0000_0000_0000) as u64;
    let product = call_id.0 as int * CALL_ID_MIX as int;
    let c = (product % m) as u64;
    assert((a ^ c) ^ (b ^ c) == a ^ b) by (bit_vector);
    assert(0u64 ^ c == c) by (bit_vector);
    vstd::arithmetic::div_mod::lemma_mod_equivalence(c as int, product, m);
    assert(c as int % m == product % m);
    law_hex_digits_make_the_number(session_number(first, call_id) as nat, 16);
}

/// Switching to T.38 puts the new receiver in place and starts progress anew at
/// that moment, so that the first report of the new receiver is measured
/// against nothing. State, start, status message and all else stay.
pub proof fn law_switch_starts_progress_anew(
    session: FaxSession,
    t38_receiver: FaxT38Receiver,
    now: FaxInstant,
)
    ensures
        ({
            let after = session.switched(t38_receiver, now);
            &&& after.receiver == FaxReceiverKind::T38(t38_receiver)
            &&& after.source is T38Udptl
            &&& after.wf()
            &&& !after.last_progress.negotiation_started
            &&& after.last_progress.pages_received == 0
            &&& after.last_progress.image_length == 0
            &&& after.last_progress_at == now
            &&& after.state == session.state
            &&& after.created_at == session.created_at
            &&& after.pending_incomplete_reason == session.pending_incomplete_reason
            &&& after.receiving_message_id == session.receiving_message_id
            &&& after.call_id == session.call_id
            &&& after.text_channel_id == session.text_channel_id
            &&& after.guild_id == session.guild_id
            &&& after.user_id == session.user_id
            &&& after.poster == session.poster
            &&& after.tiff_dir == session.tiff_dir
        }),
{
}

/// The initial status message, once posted, is remembered and sets the session
/// to receiving with no pages yet; where it could not be posted the session has
/// failed, and the error is handed on.
pub proof fn law_first_post_starts_receiving(
    after: FaxSession,
    before: FaxSession,
    message_id: u64,
    error: FaxError,
    result: Result<(), FaxError>,
)
    ensures
        after.follows_first_post(before, Ok(message_id), result) ==> {
            &&& result is Ok
            &&& after.receiving_message_id == Some(message_id)
            &&& after.state == FaxState::Receiving { pages_received: 0 }
            &&& after.receiver == before.receiver
            &&& after.created_at == before.created_at
            &&& after.last_progress == before.last_progress
            &&& after.last_progress_at == before.last_progress_at
            &&& after.pending_incomplete_reason == before.pending_incomplete_reason
        },
        after.follows_first_post(before, Err(error), result) ==> {
            &&& result == Err::<(), FaxError>(error)
            &&& after.state matches FaxState::Failed(text)
            &&& text@ == "Discord error: "@ + error.text()
            &&& after.receiving_message_id == before.receiving_message_id
        },
{
}

/// What an upload shows, page by page: each page with its own bytes, an
/// incomplete result under the numbers of the document and a complete one
/// counted from one, with the number of all its pages in the description.
pub proof fn law_upload_shows_its_pages(upload: FaxUpload, footer: Seq<char>, i: int)
    ensures
        ({
            let edit = upload.shown_edit(footer);
            let count = upload.pages@.len();
            &&& count <= 10 ==> edit.attachments.len() == count
            &&& count > 10 ==> edit.attachments.len() == 10
            &&& edit.embeds.len() == edit.attachments.len()
            &&& 0 <= i < edit.attachments.len() ==> {
                &&& edit.attachments[i].data == upload.pages@[i].data@
                &&& upload.is_incomplete ==> edit.attachments[i].filename == page_filename(
                    upload.pages@[i].page_number as nat,
                    upload.file_ext@,
                )
                &&& !upload.is_incomplete ==> edit.attachments[i].filename == page_filename(
                    (i + 1) as nat,
                    upload.file_ext@,
                )
            }
            &&& 0 < count <= u32::MAX ==> {
                &&& edit.embeds[0].footer == Some(footer)
                &&& upload.is_incomplete ==> edit.embeds[0].title == Some("Fax Incomplete"@)
                    && edit.embeds[0].description == Some(
                    result_description(FaxPostKind::Incomplete, count as u32, count > 10),
                )
                &&& !upload.is_incomplete ==> edit.embeds[0].title == Some("Fax Received"@)
                    && edit.embeds[0].description == Some(
                    result_description(FaxPostKind::Complete, count as u32, count > 10),
                )
            }
        }),
{
    let kind = if upload.is_incomplete {
        FaxPostKind::Incomplete
    } else {
        FaxPostKind::Complete
    };
    let pages = if upload.is_incomplete {
        upload@.pages
    } else {
        renumbered(upload@.pages)
    };
    let page_count = upload.pages@.len() as u32;
    law_gallery_field_by_field(pages, page_count, upload.file_ext@, kind, footer, i);
    law_gallery_field_by_field(pages, page_count, upload.file_ext@, kind, footer, 0);
}

/// A failure is told in place of the status message where there is one and in a
/// message of its own everywhere else, in red, with the whole reason.
pub proof fn law_failure_is_told_once(session: FaxSession, post: FailurePost, reason: Seq<char>)
    requires
        session.tells_failure(post, reason),
    ensures
        session.receiving_message_id matches Some(id) ==> (post
            matches FailurePost::Edit { message_id, .. } && message_id == id),
        session.receiving_message_id is None ==> post is Post,
        ({
            let embed = match post {
                FailurePost::Edit { embed, .. } => embed@,
                FailurePost::Post(embed) => embed@,
            };
            &&& embed.title == Some("Fax Failed"@)
            &&& embed.description == Some(reason)
            &&& embed.color == 0xED4245
            &&& embed.footer == Some(session.poster.footer_text())
        }),
{
}

} // verus!
