//! SIP transport.

pub mod error;
pub mod ffi;

pub use crate::transport::sip::ffi::types::CallId;
