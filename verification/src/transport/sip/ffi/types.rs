//! Types shared with pjsua.

use vstd::prelude::*;

verus! {

/// The number that pjsua gives a call.
#[derive(Debug, Clone, Copy, PartialEq, Eq, Structural)]
pub struct CallId(pub i32);

} // verus!
