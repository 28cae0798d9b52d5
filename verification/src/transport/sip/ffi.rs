//! What is handed to and decided about the pjsua C library.

pub mod pj_str;
pub mod types;
