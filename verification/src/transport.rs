//! The transports that calls come in through.

pub mod sip;
