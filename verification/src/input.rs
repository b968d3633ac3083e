//! The per-tick input signals the core consumes. The driver polls whatever
//! device it likes and hands the core one plain snapshot of booleans.
//!
//! `left`, `right`, the rotations, `swap` and `hard_drop` are edge
//! signals: true only on the tick of the press. `left_das`, `right_das`
//! and `soft_drop` are level signals: true for as long as the key is held.
//!
//! Restart, undo, pause and quit are deliberately not in this struct: they
//! act on the match from outside rather than on the falling piece, so the
//! driver handles them around the tick — restart by `Game::reset`, undo by
//! restoring a cloned snapshot, pause by withholding `update`, quit by
//! leaving the loop.

use vstd::prelude::*;

verus! {

/// One tick's worth of input signals.
#[derive(Clone, Copy, Debug, PartialEq, Eq, Structural)]
pub struct InputState {
    pub swap: bool,
    pub left: bool,
    pub right: bool,
    pub left_das: bool,
    pub right_das: bool,
    pub clockwise: bool,
    pub counter_clockwise: bool,
    pub one_eighty: bool,
    pub hard_drop: bool,
    pub soft_drop: bool,
}

impl InputState {
    /// A tick with no input at all.
    pub fn none() -> (i: InputState)
        ensures
            i == (InputState {
                swap: false,
                left: false,
                right: false,
                left_das: false,
                right_das: false,
                clockwise: false,
                counter_clockwise: false,
                one_eighty: false,
                hard_drop: false,
                soft_drop: false,
            }),
    {
        InputState {
            swap: false,
            left: false,
            right: false,
            left_das: false,
            right_das: false,
            clockwise: false,
            counter_clockwise: false,
            one_eighty: false,
            hard_drop: false,
            soft_drop: false,
        }
    }
}

} // verus!
