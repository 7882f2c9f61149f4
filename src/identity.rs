//! Host identity fields of a snapshot, built from what the OS reported.

use vstd::prelude::*;

verus! {

/// The OS version as `"<sysname> <release>"`.
pub fn os_version(sysname: &str, release: &str) -> (r: String)
    ensures
        r@ == sysname@ + " "@ + release@,
{
    let s = String::from_str(sysname);
    let s = s.concat(" ");
    s.concat(release)
}

/// An identity value, or the placeholder `unknown` when it could not be read.
pub fn identity_or_placeholder(v: Option<String>) -> (r: String)
    ensures
        r@ == match v {
            Some(s) => s@,
            None => "unknown"@,
        },
{
    match v {
        Some(s) => s,
        None => String::from_str("unknown"),
    }
}

/// Uptime in whole seconds as a signed figure: 0 when it could not be read,
/// capped at `i64::MAX`.
pub fn uptime_seconds(secs: Option<u64>) -> (r: i64)
    ensures
        r == match secs {
            Some(s) => if s > i64::MAX as u64 { i64::MAX as int } else { s as int },
            None => 0,
        },
{
    match secs {
        Some(s) => if s > i64::MAX as u64 { i64::MAX } else { s as i64 },
        None => 0,
    }
}

} // verus!
