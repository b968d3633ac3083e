//! The real-time handling constants of a match. All intervals are in
//! milliseconds. The values are supplied by the driver at match
//! construction; the core never reads or writes configuration itself.

use vstd::prelude::*;

verus! {

/// Named real-time constants: how often gravity pulls the piece down, how
/// fast soft drop repeats, how long a direction must be held before
/// auto-shift kicks in, how long a grounded piece may wait before locking,
/// and how many times that wait may be reset by moves and rotations.
#[derive(Clone, Copy, Debug, PartialEq, Eq, Structural)]
pub struct HandlingSettings {
    pub gravity: u64,
    pub soft_drop: u64,
    pub das: u64,
    pub lock_delay: u64,
    pub lock_delay_resets: u32,
}

impl Default for HandlingSettings {
    /// The stock handling values.
    fn default() -> (s: HandlingSettings)
        ensures
            s.gravity == 330,
            s.soft_drop == 160,
            s.das == 140,
            s.lock_delay == 500,
            s.lock_delay_resets == 15,
    {
        HandlingSettings {
            gravity: 330,
            soft_drop: 160,
            das: 140,
            lock_delay: 500,
            lock_delay_resets: 15,
        }
    }
}

} // verus!
