//! Results of the ban system.

use vstd::prelude::*;

verus! {

/// Result of checking/recording a ban
#[derive(Debug, Clone, Copy)]
pub struct BanCheckResult {
    /// Current offense level for this IP (progressive timeout key)
    pub offense_level: u32,
    /// Whether the IP is currently timed out or banned
    pub is_banned: bool,
    /// Whether this is a permanent ban (vs progressive timeout)
    pub is_permanent: bool,
    /// Timeout duration in seconds (0 if not timed out)
    pub timeout_secs: u64,
    /// Whether we should log this attempt
    pub should_log: bool,
}

/// Result of clearing all ban data
#[derive(Debug)]
pub struct ClearResult {
    /// Number of bans that were cleared
    pub bans_cleared: u64,
    /// Number of register records that were cleared
    pub registers_cleared: u64,
}

} // verus!
