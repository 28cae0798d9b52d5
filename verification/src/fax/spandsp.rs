//! What the fax demodulator reports.

use vstd::prelude::*;

verus! {

/// Outcome of feeding the receiver, or of driving its timer.
#[derive(Debug)]
pub enum FaxRxStatus {
    /// Reception goes on
    InProgress,
    /// The protocol reached a clean end
    Complete,
    /// The protocol failed, for this reason
    Error(String),
}

/// What a receiver says of itself at one moment.
#[derive(Debug, Clone, Copy, PartialEq, Eq, Structural)]
pub struct ReceiverReading {
    /// Whether the two ends have started to negotiate
    pub negotiation_started: bool,
    /// Number of pages received so far
    pub pages_received: u32,
    /// Whether the sender marked the most recently received page as the end of
    /// the document
    pub document_end_signaled: bool,
    /// Rows decoded of the current page, where transfer statistics are at hand
    pub image_length: Option<i32>,
}

/// What a receiver gives back when it is fed, or when its timer is driven.
#[derive(Debug)]
pub struct ReceiverReport {
    pub status: FaxRxStatus,
    pub reading: ReceiverReading,
}

/// The audio receiver (demodulates fax tones from audio samples): where it
/// writes the document, and its latest reading.
#[derive(Debug)]
pub struct FaxReceiver {
    pub tiff_output_path: String,
    pub reading: ReceiverReading,
}

/// The T.38 receiver (takes IFP packets directly): where it writes the
/// document, and its latest reading.
#[derive(Debug)]
pub struct FaxT38Receiver {
    pub tiff_output_path: String,
    pub reading: ReceiverReading,
}

} // verus!
