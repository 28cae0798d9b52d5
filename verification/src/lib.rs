//! Sipcord Bridge: the verified core of a SIP to Discord voice and fax bridge.
//!
//! The crate decides; it performs no I/O. Audio files and sample buffers come
//! in as slices, fax reception events come in as plain values, and what is to
//! be posted or sent next comes back as plain values.

pub mod audio;
pub mod error;
pub mod fax;
pub mod services;
pub mod text;
pub mod transport;

pub use crate::error::BridgeError;
