//! The time at which a block is made.

use vstd::prelude::*;
use chrono::Utc;

verus! {

/// A point in time: whole seconds since the start of 1970 (UTC), and the
/// nanoseconds that have passed of the second after them.
#[derive(Clone, Copy, Debug, PartialEq, Eq, Structural)]
pub struct Timestamp {
    pub secs: i64,
    pub nanos: u32,
}

/// Reads the clock with chrono's `Utc::now`, and takes the seconds and the
/// nanoseconds of what it returns. Nothing is known of the time read.
#[verifier::external_body]
pub(crate) fn now() -> (t: Timestamp)
{
    let t = Utc::now();
    Timestamp { secs: t.timestamp(), nanos: t.timestamp_subsec_nanos() }
}

} // verus!
