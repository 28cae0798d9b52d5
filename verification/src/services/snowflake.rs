//! Discord identifiers.

use vstd::prelude::*;

verus! {

/// A Discord snowflake: the number of a channel, guild, user or message.
#[derive(Debug, Clone, Copy, PartialEq, Eq, Structural)]
pub struct Snowflake(pub u64);

} // verus!
