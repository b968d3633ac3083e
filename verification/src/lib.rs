//! Simulation core of a falling-block puzzle game: board state, piece
//! movement and rotation, a fair randomized piece queue, scoring, and the
//! per-tick update protocol. Rendering, input polling and settings
//! persistence are external collaborators and live outside this crate.
//!
//! Grid convention used throughout: the grid has `WIDTH` columns and
//! `HEIGHT` rows, indexed `[row][column]`. Row indices grow downward:
//! rows `0 .. HEIGHT - VISIBLE_HEIGHT` are the hidden buffer above the
//! visible play area, row `HEIGHT - 1` is the floor. A falling piece moves
//! to higher row numbers. Pieces spawn with their pivot on the lowest
//! buffer row, one row above the visible area.

use vstd::prelude::*;

pub mod falling_piece;
pub mod game;
pub mod handling;
pub mod input;
pub mod line_clear_message;
pub mod next_queue;
pub mod playfield;
pub mod tetromino;

verus! {

/// `a + b`, stopping at the top of `u64`.
pub open spec fn spec_sat_add_u64(a: u64, b: u64) -> u64 {
    if a + b > u64::MAX {
        u64::MAX
    } else {
        (a + b) as u64
    }
}

/// `a + b`, stopping at the top of `u64`.
pub fn sat_add_u64(a: u64, b: u64) -> (r: u64)
    ensures
        r == spec_sat_add_u64(a, b),
{
    if a > u64::MAX - b {
        u64::MAX
    } else {
        a + b
    }
}

/// `v + 1`, stopping at the top of `u32`.
pub open spec fn spec_sat_inc_u32(v: u32) -> u32 {
    if v == u32::MAX {
        v
    } else {
        (v + 1) as u32
    }
}

/// `v + 1`, stopping at the top of `u32`.
pub fn sat_inc_u32(v: u32) -> (r: u32)
    ensures
        r == spec_sat_inc_u32(v),
{
    if v == u32::MAX {
        v
    } else {
        v + 1
    }
}

} // verus!
