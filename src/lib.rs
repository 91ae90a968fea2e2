//! Keeps a machine awake while audio plays: the decisions of the
//! reconciliation loop and the reading of the audio server's stream listing.
use vstd::prelude::*;

pub mod held;
pub mod listing;
pub mod runs;

verus! {

/// Seconds between two ticks of the reconciliation loop.
pub const TICK_INTERVAL_SECS: u64 = 1;

} // verus!
